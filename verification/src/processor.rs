//! The order-driven state machine: consumes order messages, drives the
//! user-supplied handler through its lifecycle hooks, and produces response
//! messages together with one delivery decision per consumed order.

use vstd::prelude::*;

use crate::job::{Job, JobProgression, JobResult, JobStatus, ProgressionSink};
use crate::job::spec_requirement_paths;
use crate::clock::now_rfc3339;
use crate::error::MessageError;
use crate::message_exchange::{
    DeliveryAction, LocalExchange, OrderMessage, ResponseMessage, spec_is_terminal,
};
use crate::worker::MessageEvent;

verus! {

/// The collaborator that answers whether a requirement path exists. The
/// embedding binary probes the filesystem; tests may answer from a table.
/// The processor's guarantees hold whatever the probe answers.
pub trait PathProbe {
    fn path_exists(&mut self, path: &String) -> bool;
}

/// One admitted job, waiting to be started, with its last known progression.
#[derive(Debug)]
pub struct ActiveJob {
    pub job: Job,
    pub progression: u8,
}

/// Everything one consumed order produces: the responses to publish, the
/// decision on the delivery that carried the order, and whether the worker
/// should shut down.
#[derive(Debug)]
pub struct OrderOutcome {
    pub responses: Vec<ResponseMessage>,
    pub delivery: DeliveryAction,
    pub stop_worker: bool,
}

/// The identifiers in `s` are pairwise distinct.
pub open spec fn unique_ids(s: Seq<ActiveJob>) -> bool {
    forall|i: int, j: int|
        0 <= i < j < s.len() ==> s[i].job.job_id != s[j].job.job_id
}

/// A single runtime-error response.
pub open spec fn runtime_error_only(rs: Seq<ResponseMessage>) -> bool {
    rs.len() == 1 && rs[0] matches ResponseMessage::Error(MessageError::RuntimeError(_))
}

/// A single requirements-error response.
pub open spec fn requirements_error_only(rs: Seq<ResponseMessage>) -> bool {
    rs.len() == 1 && rs[0] matches ResponseMessage::Error(MessageError::RequirementsError(_))
}

/// The last response is terminal and no earlier one is: a job's terminal
/// response is emitted exactly once, at the end.
pub open spec fn exactly_one_terminal(rs: Seq<ResponseMessage>) -> bool {
    &&& rs.len() > 0
    &&& spec_is_terminal(rs.last())
    &&& forall|k: int| 0 <= k < rs.len() - 1 ==> !spec_is_terminal(#[trigger] rs[k])
}

/// The set of active entries holds `id`.
pub open spec fn has_active(s: Seq<ActiveJob>, id: u64) -> bool {
    exists|i: int| 0 <= i < s.len() && #[trigger] s[i].job.job_id == id
}

/// The step relation of the processor: what one consumed order does to the
/// active set and what outcome it produces. `handle_order` realises exactly
/// this relation.
pub open spec fn spec_order_outcome(
    pre: Seq<ActiveJob>,
    post: Seq<ActiveJob>,
    order: OrderMessage,
    outcome: OrderOutcome,
) -> bool {
    match order {
        OrderMessage::InitProcess(job) => {
            &&& !outcome.stop_worker
            &&& if has_active(pre, job.job_id) {
                &&& post == pre
                &&& runtime_error_only(outcome.responses@)
                &&& outcome.delivery == DeliveryAction::Ack
            } else {
                &&& {
                    ||| {
                        &&& post == pre
                        &&& requirements_error_only(outcome.responses@)
                        &&& outcome.delivery == DeliveryAction::Reject(true)
                    }
                    ||| init_admitted(pre, post, outcome, job)
                }
                &&& spec_requirement_paths(job).len() == 0 ==> init_admitted(
                    pre,
                    post,
                    outcome,
                    job,
                )
            }
        },
        OrderMessage::StartProcess(job) => {
            &&& !outcome.stop_worker
            &&& if has_active(pre, job.job_id) {
                &&& removal_of(pre, post, job.job_id)
                &&& !has_active(post, job.job_id)
                &&& started_terminal_sequence(outcome.responses@, job.job_id)
                &&& delivery_for_terminal(outcome.responses@.last(), outcome.delivery)
            } else {
                &&& post == pre
                &&& runtime_error_only(outcome.responses@)
                &&& outcome.delivery == DeliveryAction::Ack
            }
        },
        OrderMessage::StopProcess(_) => {
            &&& !outcome.stop_worker
            &&& post == pre
            &&& outcome.responses@.len() == 0
            &&& outcome.delivery == DeliveryAction::Ack
        },
        OrderMessage::Status(job) => {
            &&& !outcome.stop_worker
            &&& post == pre
            &&& outcome.delivery == DeliveryAction::Ack
            &&& outcome.responses@.len() == 1
            &&& if has_active(pre, job.job_id) {
                status_report(outcome.responses@, pre, job.job_id)
            } else {
                runtime_error_only(outcome.responses@)
            }
        },
        OrderMessage::StopWorker => {
            &&& outcome.stop_worker
            &&& post == pre
            &&& outcome.responses@.len() == 0
            &&& outcome.delivery == DeliveryAction::Ack
        },
    }
}

/// A status answer: one progression response naming the job and carrying
/// exactly the progression recorded for it in the active set `pre`.
pub open spec fn status_report(rs: Seq<ResponseMessage>, pre: Seq<ActiveJob>, id: u64) -> bool {
    &&& rs.len() == 1
    &&& rs[0] matches ResponseMessage::Progression(p) && p.job_id == id && p.progress <= 100 && (
    forall|i: int|
        0 <= i < pre.len() && (#[trigger] pre[i]).job.job_id == id ==> p.progress
            == pre[i].progression)
}

/// The delivery decision owed for a terminal response: completed jobs and
/// handler-side errors acknowledge the delivery; requirements and
/// not-implemented outcomes reject it with a requeue hint.
pub open spec fn delivery_for_terminal(t: ResponseMessage, d: DeliveryAction) -> bool {
    match t {
        ResponseMessage::Completed(_) => d == DeliveryAction::Ack,
        ResponseMessage::Error(e) => match e {
            MessageError::NotImplemented() => d == DeliveryAction::Reject(true),
            MessageError::RequirementsError(_) => d == DeliveryAction::Reject(true),
            _ => d == DeliveryAction::Ack,
        },
        _ => true,
    }
}

/// The response sequence of a started job: `Started`, then only progression
/// reports, then exactly one terminal response; a completed terminal carries
/// the job identifier and the completed status.
pub open spec fn started_terminal_sequence(rs: Seq<ResponseMessage>, id: u64) -> bool {
    &&& rs.len() >= 2
    &&& rs[0] matches ResponseMessage::Started(jr) && jr.job_id == id && jr.status is Unknown
    &&& forall|k: int| 0 < k < rs.len() - 1 ==> #[trigger] rs[k] is Progression
    &&& exactly_one_terminal(rs)
    &&& rs.last() matches ResponseMessage::Completed(jr) ==> jr.job_id == id && jr.status
        is Completed
}

/// The full response sequence of a job passing through the processor:
/// `Initialized`, `Started`, progression reports, one terminal response.
pub open spec fn full_job_sequence(rs: Seq<ResponseMessage>, id: u64) -> bool {
    &&& rs.len() >= 3
    &&& rs[0] matches ResponseMessage::Initialized(jr) && jr.job_id == id
    &&& started_terminal_sequence(rs.skip(1), id)
    &&& exactly_one_terminal(rs)
}

/// The active set `post` is `pre` with its one entry for `id` removed: such
/// an entry exists, and removing it at its (unique) position gives `post`.
pub open spec fn removal_of(pre: Seq<ActiveJob>, post: Seq<ActiveJob>, id: u64) -> bool {
    &&& (exists|i: int| 0 <= i < pre.len() && #[trigger] pre[i].job.job_id == id && post == pre.remove(i))
    &&& (forall|i: int| 0 <= i < pre.len() && #[trigger] pre[i].job.job_id == id ==> post == pre.remove(i))
}

/// What one job-queue delivery may produce: a lone requirements error that
/// sends the delivery back for requeueing, or the full response sequence of
/// the job with the delivery decision owed to its terminal response.
pub open spec fn job_delivery_outcome(rs: Seq<ResponseMessage>, d: DeliveryAction, id: u64) -> bool {
    ||| (requirements_error_only(rs) && d == DeliveryAction::Reject(true))
    ||| (full_job_sequence(rs, id) && delivery_for_terminal(rs.last(), d))
}

/// The responses an exchange gained over `pre`, oldest first.
pub open spec fn gained(pre: Seq<ResponseMessage>, post: Seq<ResponseMessage>) -> Seq<
    ResponseMessage,
> {
    post.skip(pre.len() as int)
}

/// The order-driven state machine, multiplexed across jobs by identifier.
/// Terminal transitions remove a job from the active set.
#[derive(Debug)]
pub struct Processor {
    jobs: Vec<ActiveJob>,
}

impl Processor {
    /// The admitted jobs, oldest first.
    pub closed spec fn active(&self) -> Seq<ActiveJob> {
        self.jobs@
    }

    /// Identifiers are unique and recorded progressions stay in `[0, 100]`.
    pub open spec fn wf(&self) -> bool {
        &&& unique_ids(self.active())
        &&& forall|i: int|
            0 <= i < self.active().len() ==> #[trigger] self.active()[i].progression <= 100
    }

    /// The job is in the active set.
    pub open spec fn spec_has_job(&self, id: u64) -> bool {
        has_active(self.active(), id)
    }

    /// A processor with no active job.
    pub fn new() -> (p: Processor)
        ensures
            p.wf(),
            p.active().len() == 0,
    {
        Processor { jobs: Vec::new() }
    }

    /// Whether the identifier currently has an active processing state.
    pub fn has_job(&self, id: u64) -> (r: bool)
        ensures
            r == self.spec_has_job(id),
    {
        self.find_job(id).is_some()
    }

    /// The index of the first active entry for `id`.
    fn find_job(&self, id: u64) -> (r: Option<usize>)
        ensures
            match r {
                Some(i) => {
                    &&& i < self.active().len()
                    &&& self.active()[i as int].job.job_id == id
                    &&& forall|j: int| 0 <= j < i ==> self.active()[j].job.job_id != id
                },
                None => !self.spec_has_job(id),
            },
    {
        let n = self.jobs.len();
        for i in 0..n
            invariant
                n == self.active().len(),
                forall|j: int| 0 <= j < i ==> self.active()[j].job.job_id != id,
        {
            if self.jobs[i].job.job_id == id {
                return Some(i);
            }
        }
        None
    }

    /// Consumes one order and produces its outcome: exactly the step
    /// relation `spec_order_outcome` between the active set before and
    /// after. Whatever the handler and the probe answer, the outcome
    /// decides the delivery exactly once, the responses of a started job
    /// are ordered `Started`, progression reports, one terminal response,
    /// and the active set changes only as the order directs.
    pub fn handle_order<ME: MessageEvent, PP: PathProbe>(
        &mut self,
        message_event: &mut ME,
        probe: &mut PP,
        order: OrderMessage,
    ) -> (outcome: OrderOutcome)
        requires
            old(self).wf(),
        ensures
            final(self).wf(),
            spec_order_outcome(old(self).active(), final(self).active(), order, outcome),
    {
        match order {
            OrderMessage::InitProcess(job) => self.init_process(probe, job),
            OrderMessage::StartProcess(job) => self.start_process(message_event, job),
            OrderMessage::StopProcess(_job) => OrderOutcome {
                responses: Vec::new(),
                delivery: DeliveryAction::Ack,
                stop_worker: false,
            },
            OrderMessage::Status(job) => self.status(job),
            OrderMessage::StopWorker => OrderOutcome {
                responses: Vec::new(),
                delivery: DeliveryAction::Ack,
                stop_worker: true,
            },
        }
    }

    /// Admits a job: checks the requirement paths, then records the job and
    /// answers `Initialized`. A second admission of an active identifier is a
    /// runtime error; a missing path is a requirements error with a requeue
    /// hint, and the handler is never involved.
    fn init_process<PP: PathProbe>(&mut self, probe: &mut PP, job: Job) -> (outcome: OrderOutcome)
        requires
            old(self).wf(),
        ensures
            final(self).wf(),
            !outcome.stop_worker,
            if old(self).spec_has_job(job.job_id) {
                &&& final(self).active() == old(self).active()
                &&& runtime_error_only(outcome.responses@)
                &&& outcome.delivery == DeliveryAction::Ack
            } else {
                &&& {
                    ||| {
                        &&& final(self).active() == old(self).active()
                        &&& requirements_error_only(outcome.responses@)
                        &&& outcome.delivery == DeliveryAction::Reject(true)
                    }
                    ||| init_admitted(old(self).active(), final(self).active(), outcome, job)
                }
                &&& spec_requirement_paths(job).len() == 0 ==> init_admitted(
                    old(self).active(),
                    final(self).active(),
                    outcome,
                    job,
                )
            },
    {
        if self.has_job(job.job_id) {
            let mut responses: Vec<ResponseMessage> = Vec::new();
            responses.push(
                ResponseMessage::Error(
                    MessageError::RuntimeError(String::from_str("job already in progress")),
                ),
            );
            return OrderOutcome {
                responses,
                delivery: DeliveryAction::Ack,
                stop_worker: false,
            };
        }
        let paths = job.requirement_paths();
        let answers = probe_paths(probe, &paths);
        let missing = first_missing_path(&paths, &answers);
        match missing {
            Some(path) => {
                let mut responses: Vec<ResponseMessage> = Vec::new();
                responses.push(
                    ResponseMessage::Error(
                        MessageError::RequirementsError(
                            String::from_str("missing requirement path: ").concat(path.as_str()),
                        ),
                    ),
                );
                OrderOutcome {
                    responses,
                    delivery: DeliveryAction::Reject(true),
                    stop_worker: false,
                }
            },
            None => {
                let id = job.job_id;
                let ghost pre = self.active();
                self.jobs.push(ActiveJob { job, progression: 0 });
                let mut responses: Vec<ResponseMessage> = Vec::new();
                responses.push(ResponseMessage::Initialized(JobResult::new(id)));
                proof {
                    assert forall|i: int, j: int|
                        0 <= i < j < self.active().len() implies self.active()[i].job.job_id
                        != self.active()[j].job.job_id by {
                        if j < pre.len() {
                        } else {
                            assert(!old(self).spec_has_job(id));
                            assert(self.active()[j].job.job_id == id);
                        }
                    }
                }
                OrderOutcome {
                    responses,
                    delivery: DeliveryAction::Ack,
                    stop_worker: false,
                }
            },
        }
    }

    /// Starts an admitted job: emits `Started`, runs the handler's processing
    /// body with a fresh result and a progression sink, forwards the
    /// collected progression reports, and closes with exactly one terminal
    /// response that decides the delivery.
    fn start_process<ME: MessageEvent>(&mut self, message_event: &mut ME, job: Job) -> (outcome:
        OrderOutcome)
        requires
            old(self).wf(),
        ensures
            final(self).wf(),
            !outcome.stop_worker,
            if old(self).spec_has_job(job.job_id) {
                &&& removal_of(old(self).active(), final(self).active(), job.job_id)
                &&& !final(self).spec_has_job(job.job_id)
                &&& started_terminal_sequence(outcome.responses@, job.job_id)
                &&& delivery_for_terminal(outcome.responses@.last(), outcome.delivery)
            } else {
                &&& final(self).active() == old(self).active()
                &&& runtime_error_only(outcome.responses@)
                &&& outcome.delivery == DeliveryAction::Ack
            },
    {
        match self.find_job(job.job_id) {
            None => {
                let mut responses: Vec<ResponseMessage> = Vec::new();
                responses.push(
                    ResponseMessage::Error(
                        MessageError::RuntimeError(String::from_str("job was not initialized")),
                    ),
                );
                OrderOutcome {
                    responses,
                    delivery: DeliveryAction::Ack,
                    stop_worker: false,
                }
            },
            Some(i) => {
                let ghost pre = self.active();
                let entry = self.jobs.remove(i);
                let stored = entry.job;
                let id = stored.job_id;
                proof {
                    pre.remove_ensures(i as int);
                    assert forall|a: int, b: int|
                        0 <= a < b < self.active().len() implies self.active()[a].job.job_id
                        != self.active()[b].job.job_id by {}
                    assert forall|a: int|
                        0 <= a < self.active().len() implies !(self.active()[a].job.job_id
                        == id) by {
                        if a < i {
                        } else {
                            assert(self.active()[a] == pre[a + 1]);
                        }
                    }
                }
                let mut sink = ProgressionSink::new();
                let initial = JobResult::new(id);
                let result = message_event.process(&mut sink, &stored, initial);
                let reports = sink.take_items();
                let ghost reps = reports@;
                let ghost outcome_of_handler = result;
                let (responses, delivery) = close_started(id, reports, result);
                proof {
                    let rs = responses@;
                    assert forall|k: int| 0 < k < rs.len() - 1 implies #[trigger] rs[k]
                        is Progression by {
                        assert(rs[k] == ResponseMessage::Progression(reps[k - 1]));
                    }
                    match outcome_of_handler {
                        Ok(res) => {
                            assert(spec_is_terminal(rs.last()));
                        },
                        Err(e) => {
                            assert(spec_is_terminal(rs.last()));
                        },
                    }
                }
                OrderOutcome {
                    responses,
                    delivery,
                    stop_worker: false,
                }
            },
        }
    }

    /// Answers the last known progression of an active job; an unknown
    /// identifier is a runtime error. In this model a job leaves the active
    /// set when it starts, so the recorded progression is the value at
    /// admission: zero until the job runs.
    fn status(&mut self, job: Job) -> (outcome: OrderOutcome)
        requires
            old(self).wf(),
        ensures
            final(self).wf(),
            final(self).active() == old(self).active(),
            !outcome.stop_worker,
            outcome.delivery == DeliveryAction::Ack,
            outcome.responses@.len() == 1,
            if old(self).spec_has_job(job.job_id) {
                status_report(outcome.responses@, old(self).active(), job.job_id)
            } else {
                runtime_error_only(outcome.responses@)
            },
    {
        let mut responses: Vec<ResponseMessage> = Vec::new();
        match self.find_job(job.job_id) {
            Some(i) => {
                let progress = self.jobs[i].progression;
                proof {
                    assert forall|t: int|
                        0 <= t < self.active().len() && (#[trigger] self.active()[t]).job.job_id
                            == job.job_id implies self.active()[t].progression
                        == self.active()[i as int].progression by {
                        if t < i as int {
                            assert(self.active()[t].job.job_id != self.active()[i as int].job.job_id);
                        } else if t > i as int {
                            assert(self.active()[i as int].job.job_id != self.active()[t].job.job_id);
                        }
                    }
                }
                responses.push(
                    ResponseMessage::Progression(
                        JobProgression { job_id: job.job_id, progress, datetime: now_rfc3339() },
                    ),
                );
            },
            None => {
                responses.push(
                    ResponseMessage::Error(
                        MessageError::RuntimeError(String::from_str("unknown job")),
                    ),
                );
            },
        }
        OrderOutcome {
            responses,
            delivery: DeliveryAction::Ack,
            stop_worker: false,
        }
    }

    /// Consumes the `InitProcess` and `StartProcess` pair that one job-queue
    /// delivery stands for. Exactly one terminal response is emitted: a lone
    /// requirements error, or the full `Initialized`, `Started`,
    /// progression reports, terminal sequence; a job without requirement
    /// paths always gets the full sequence. The single delivery decision
    /// follows the terminal response.
    pub fn execute_job<ME: MessageEvent, PP: PathProbe>(
        &mut self,
        message_event: &mut ME,
        probe: &mut PP,
        job: Job,
    ) -> (outcome: OrderOutcome)
        requires
            old(self).wf(),
            !old(self).spec_has_job(job.job_id),
        ensures
            final(self).wf(),
            final(self).active() == old(self).active(),
            !outcome.stop_worker,
            exactly_one_terminal(outcome.responses@),
            job_delivery_outcome(outcome.responses@, outcome.delivery, job.job_id),
            spec_requirement_paths(job).len() == 0 ==> full_job_sequence(
                outcome.responses@,
                job.job_id,
            ),
    {
        let id = job.job_id;
        let ghost pre = self.active();
        let o1 = self.handle_order(message_event, probe, OrderMessage::InitProcess(job));
        if !self.has_job(id) {
            proof {
                if !requirements_error_only(o1.responses@) {
                    assert(self.active()[pre.len() as int].job.job_id == id);
                    assert(self.spec_has_job(id));
                }
                assert(o1.responses@.last() == o1.responses@[0]);
            }
            return o1;
        }
        let ghost mid = self.active();
        let start_job = Job { job_id: id, parameters: Vec::new() };
        let o2 = self.handle_order(message_event, probe, OrderMessage::StartProcess(start_job));
        let mut responses = o1.responses;
        let mut tail = o2.responses;
        responses.append(&mut tail);
        proof {
            assert(mid[pre.len() as int].job.job_id == id);
            assert(self.active() == mid.remove(pre.len() as int));
            assert(mid.remove(pre.len() as int) =~= pre);
            assert(responses@.skip(1) =~= o2.responses@);
            assert(responses@[0] == o1.responses@[0]);
            assert(responses@.last() == o2.responses@.last());
            assert forall|k: int|
                0 <= k < responses@.len() - 1 implies !spec_is_terminal(
                #[trigger] responses@[k],
            ) by {
                if k >= 1 {
                    assert(responses@[k] == o2.responses@[k - 1]);
                }
            }
        }
        OrderOutcome { responses, delivery: o2.delivery, stop_worker: false }
    }

    /// Replays one saved job order through the in-process exchange: the
    /// `InitProcess` and `StartProcess` pair is queued, consumed and
    /// answered. The responses the exchange gains are exactly one job's
    /// worth, ending in the terminal response the driving loop waits for.
    pub fn replay_job<ME: MessageEvent, PP: PathProbe>(
        &mut self,
        exchange: &mut LocalExchange,
        message_event: &mut ME,
        probe: &mut PP,
        job: Job,
    )
        requires
            old(self).wf(),
            !old(self).spec_has_job(job.job_id),
            old(exchange).orders().len() == 0,
        ensures
            final(self).wf(),
            final(self).active() == old(self).active(),
            final(exchange).orders().len() == 0,
            final(exchange).responses().len() > old(exchange).responses().len(),
            old(exchange).responses().is_prefix_of(final(exchange).responses()),
            exactly_one_terminal(gained(old(exchange).responses(), final(exchange).responses())),
            requirements_error_only(gained(old(exchange).responses(), final(exchange).responses()))
                || full_job_sequence(
                gained(old(exchange).responses(), final(exchange).responses()),
                job.job_id,
            ),
            spec_requirement_paths(job).len() == 0 ==> full_job_sequence(
                gained(old(exchange).responses(), final(exchange).responses()),
                job.job_id,
            ),
    {
        let id = job.job_id;
        let _ = exchange.send_order(OrderMessage::InitProcess(job));
        let _ = exchange.send_order(
            OrderMessage::StartProcess(Job { job_id: id, parameters: Vec::new() }),
        );
        let ghost pre_responses = exchange.responses();
        let first = exchange.next_order();
        let second = exchange.next_order();
        let o1 = self.handle_order(message_event, probe, first.unwrap());
        let mut responses = o1.responses;
        if self.has_job(id) {
            let ghost mid = self.active();
            let o2 = self.handle_order(message_event, probe, second.unwrap());
            let mut tail = o2.responses;
            responses.append(&mut tail);
            proof {
                assert(mid[old(self).active().len() as int].job.job_id == id);
                assert(self.active() == mid.remove(old(self).active().len() as int));
                assert(mid.remove(old(self).active().len() as int) =~= old(self).active());
                assert(responses@.skip(1) =~= o2.responses@);
                assert(responses@[0] == o1.responses@[0]);
                assert(responses@.last() == o2.responses@.last());
                assert forall|k: int|
                    0 <= k < responses@.len() - 1 implies !spec_is_terminal(
                    #[trigger] responses@[k],
                ) by {
                    if k >= 1 {
                        assert(responses@[k] == o2.responses@[k - 1]);
                    }
                }
            }
        } else {
            proof {
                if !requirements_error_only(o1.responses@) {
                    assert(self.active()[old(self).active().len() as int].job.job_id == id);
                    assert(self.spec_has_job(id));
                }
                assert(responses@.last() == responses@[0]);
            }
        }
        let ghost emitted = responses@;
        push_responses(exchange, responses);
        proof {
            assert(exchange.responses().skip(pre_responses.len() as int) =~= emitted);
            assert(pre_responses.is_prefix_of(exchange.responses()));
        }
    }

    /// Runs the dispatch loop over the in-process exchange: consumes queued
    /// orders until the queue is drained or a `StopWorker` order arrives.
    /// The consumed orders are exactly a prefix of the queued ones, and some
    /// chain of active sets and outcomes witnesses that each consumed order
    /// was dispatched as one step of the processor's step relation: the
    /// exchange gains exactly those outcomes' responses in order, and the
    /// returned decisions are exactly those outcomes' delivery decisions,
    /// one per consumed order. The run stops exactly when the last consumed
    /// order asked the worker to stop.
    pub fn run_local<ME: MessageEvent, PP: PathProbe>(
        &mut self,
        exchange: &mut LocalExchange,
        message_event: &mut ME,
        probe: &mut PP,
    ) -> (r: (Vec<DeliveryAction>, bool))
        requires
            old(self).wf(),
        ensures
            final(self).wf(),
            r.0@.len() + final(exchange).orders().len() == old(exchange).orders().len(),
            final(exchange).orders() == old(exchange).orders().skip(r.0@.len() as int),
            !r.1 ==> final(exchange).orders().len() == 0,
            old(exchange).responses().is_prefix_of(final(exchange).responses()),
            exists|states: Seq<Seq<ActiveJob>>, outcomes: Seq<OrderOutcome>|
                {
                    &&& #[trigger] run_trace(states, old(exchange).orders(), outcomes)
                    &&& states[0] == old(self).active()
                    &&& states[states.len() - 1] == final(self).active()
                    &&& outcomes.len() == r.0@.len()
                    &&& (forall|k: int|
                        0 <= k < outcomes.len() ==> (#[trigger] outcomes[k]).delivery == r.0@[k])
                    &&& final(exchange).responses() == old(exchange).responses() + responses_of(
                        outcomes,
                    )
                    &&& (forall|k: int|
                        0 <= k < outcomes.len() - 1 ==> !(#[trigger] outcomes[k]).stop_worker)
                    &&& r.1 == (outcomes.len() > 0 && outcomes.last().stop_worker)
                },
    {
        let mut acks: Vec<DeliveryAction> = Vec::new();
        let mut stopped = false;
        let ghost pre_orders = old(exchange).orders();
        let ghost pre_responses = old(exchange).responses();
        let ghost pre_active = old(self).active();
        let ghost mut states: Seq<Seq<ActiveJob>> = seq![pre_active];
        let ghost mut outcomes: Seq<OrderOutcome> = Seq::empty();
        proof {
            assert(responses_of(outcomes) =~= Seq::<ResponseMessage>::empty());
            assert(exchange.responses() =~= pre_responses + responses_of(outcomes));
            assert(exchange.orders() =~= pre_orders.skip(0));
        }
        loop
            invariant_except_break
                self.wf(),
                !stopped,
                acks@.len() == outcomes.len(),
                forall|k: int| 0 <= k < outcomes.len() ==> (#[trigger] outcomes[k]).delivery == acks@[k],
                states.len() == outcomes.len() + 1,
                states[0] == pre_active,
                states[states.len() - 1] == self.active(),
                forall|k: int|
                    0 <= k < outcomes.len() ==> spec_order_outcome(
                        states[k],
                        states[k + 1],
                        pre_orders[k],
                        #[trigger] outcomes[k],
                    ),
                forall|k: int| 0 <= k < outcomes.len() ==> !(#[trigger] outcomes[k]).stop_worker,
                outcomes.len() <= pre_orders.len(),
                exchange.orders() == pre_orders.skip(outcomes.len() as int),
                exchange.responses() == pre_responses + responses_of(outcomes),
            ensures
                self.wf(),
                acks@.len() == outcomes.len(),
                forall|k: int| 0 <= k < outcomes.len() ==> (#[trigger] outcomes[k]).delivery == acks@[k],
                states.len() == outcomes.len() + 1,
                states[0] == pre_active,
                states[states.len() - 1] == self.active(),
                forall|k: int|
                    0 <= k < outcomes.len() ==> spec_order_outcome(
                        states[k],
                        states[k + 1],
                        pre_orders[k],
                        #[trigger] outcomes[k],
                    ),
                forall|k: int| 0 <= k < outcomes.len() - 1 ==> !(#[trigger] outcomes[k]).stop_worker,
                outcomes.len() <= pre_orders.len(),
                exchange.orders() == pre_orders.skip(outcomes.len() as int),
                exchange.responses() == pre_responses + responses_of(outcomes),
                stopped == (outcomes.len() > 0 && outcomes.last().stop_worker),
                !stopped ==> exchange.orders().len() == 0,
            decreases exchange.orders().len(),
        {
            let next = exchange.next_order();
            match next {
                None => {
                    break;
                },
                Some(order) => {
                    proof {
                        assert(pre_orders.skip(outcomes.len() as int)[0] == pre_orders[
                            outcomes.len() as int
                        ]);
                    }
                    let outcome = self.handle_order(message_event, probe, order);
                    let ghost gout = outcome;
                    let ghost prev = outcomes;
                    proof {
                        states = states.push(self.active());
                        outcomes = outcomes.push(gout);
                        lemma_responses_of_snoc(prev, gout);
                        assert(pre_orders.skip(prev.len() as int).skip(1) =~= pre_orders.skip(
                            outcomes.len() as int,
                        ));
                    }
                    let OrderOutcome { responses, delivery, stop_worker } = outcome;
                    push_responses(exchange, responses);
                    proof {
                        assert(exchange.responses() =~= pre_responses + responses_of(outcomes));
                    }
                    acks.push(delivery);
                    if stop_worker {
                        stopped = true;
                        break;
                    }
                },
            }
        }
        proof {
            assert(pre_responses.is_prefix_of(exchange.responses()));
            assert(run_trace(states, pre_orders, outcomes));
        }
        (acks, stopped)
    }
}

/// The concatenated responses of a run's outcomes, oldest first.
pub open spec fn responses_of(outcomes: Seq<OrderOutcome>) -> Seq<ResponseMessage>
    decreases outcomes.len(),
{
    if outcomes.len() == 0 {
        Seq::empty()
    } else {
        outcomes[0].responses@ + responses_of(outcomes.skip(1))
    }
}

proof fn lemma_responses_of_snoc(outcomes: Seq<OrderOutcome>, o: OrderOutcome)
    ensures
        responses_of(outcomes.push(o)) == responses_of(outcomes) + o.responses@,
    decreases outcomes.len(),
{
    if outcomes.len() == 0 {
        assert(outcomes.push(o)[0] == o);
        assert(outcomes.push(o).skip(1) =~= Seq::<OrderOutcome>::empty());
        assert(responses_of(Seq::<OrderOutcome>::empty()) == Seq::<ResponseMessage>::empty());
        assert(responses_of(outcomes.push(o)) =~= responses_of(outcomes) + o.responses@);
    } else {
        assert(outcomes.push(o)[0] == outcomes[0]);
        assert(outcomes.push(o).skip(1) =~= outcomes.skip(1).push(o));
        lemma_responses_of_snoc(outcomes.skip(1), o);
        assert(responses_of(outcomes.push(o)) =~= responses_of(outcomes) + o.responses@);
    }
}

/// A run of the processor: each outcome is one step of the processor's step
/// relation on the corresponding order, through the given chain of active
/// sets.
pub open spec fn run_trace(
    states: Seq<Seq<ActiveJob>>,
    orders: Seq<OrderMessage>,
    outcomes: Seq<OrderOutcome>,
) -> bool {
    &&& states.len() == outcomes.len() + 1
    &&& outcomes.len() <= orders.len()
    &&& forall|k: int|
        0 <= k < outcomes.len() ==> spec_order_outcome(
            states[k],
            states[k + 1],
            orders[k],
            #[trigger] outcomes[k],
        )
}

/// Queues every given response, oldest first; the order queue is untouched.
fn push_responses(exchange: &mut LocalExchange, responses: Vec<ResponseMessage>)
    ensures
        final(exchange).responses() == old(exchange).responses() + responses@,
        final(exchange).orders() == old(exchange).orders(),
{
    let ghost all = responses@;
    let ghost pre = old(exchange).responses();
    let mut rest = responses;
    while rest.len() > 0
        invariant
            all.skip(all.len() - rest@.len()) == rest@,
            rest@.len() <= all.len(),
            exchange.responses() == pre + all.take(all.len() - rest@.len()),
            exchange.orders() == old(exchange).orders(),
        decreases rest.len(),
    {
        let ghost done = all.len() - rest@.len();
        let r = rest.remove(0);
        proof {
            assert(all.skip(done)[0] == all[done]);
            assert(r == all[done]);
            assert(rest@ =~= all.skip(done + 1));
        }
        let _ = exchange.send_response(r);
        proof {
            assert(pre + all.take(done + 1) =~= (pre + all.take(done)).push(all[done]));
        }
    }
    proof {
        assert(all.take(all.len() as int) =~= all);
        assert(exchange.responses() =~= pre + all);
    }
}

/// Closes a started job: maps the handler's outcome and the collected
/// progression reports to the exact responses and delivery decision.
/// `Started` comes first, then one `Progression` per report in order, then
/// exactly one terminal: on success a `Completed` result carrying this job's
/// identifier and the completed status over the handler's result parameters
/// and timestamp; on failure the handler's error unchanged. The delivery
/// follows the terminal: acknowledged, except the not-implemented and
/// requirements outcomes, which reject the delivery with a requeue hint.
pub fn close_started(
    id: u64,
    reports: Vec<JobProgression>,
    result: Result<JobResult, MessageError>,
) -> (r: (Vec<ResponseMessage>, DeliveryAction))
    ensures
        r.0@.len() == reports@.len() + 2,
        r.0@[0] matches ResponseMessage::Started(jr) && jr.job_id == id && jr.status is Unknown
            && jr.parameters@.len() == 0,
        forall|k: int|
            0 <= k < reports@.len() ==> r.0@[k + 1] == ResponseMessage::Progression(
                #[trigger] reports@[k],
            ),
        match result {
            Ok(res) => r.0@.last() == ResponseMessage::Completed(
                (JobResult {
                    job_id: id,
                    status: JobStatus::Completed,
                    parameters: res.parameters,
                    datetime: res.datetime,
                }),
            ),
            Err(e) => r.0@.last() == ResponseMessage::Error(e),
        },
        r.1 == (match result {
            Ok(_) => DeliveryAction::Ack,
            Err(e) => match e {
                MessageError::NotImplemented() => DeliveryAction::Reject(true),
                MessageError::RequirementsError(_) => DeliveryAction::Reject(true),
                _ => DeliveryAction::Ack,
            },
        }),
{
    let ghost all = reports@;
    let mut responses: Vec<ResponseMessage> = Vec::new();
    responses.push(ResponseMessage::Started(JobResult::new(id)));
    let mut rest = reports;
    while rest.len() > 0
        invariant
            rest@.len() <= all.len(),
            all.skip(all.len() - rest@.len()) == rest@,
            responses@.len() == 1 + all.len() - rest@.len(),
            responses@[0] matches ResponseMessage::Started(jr) && jr.job_id == id && jr.status
                is Unknown && jr.parameters@.len() == 0,
            forall|k: int|
                0 <= k < all.len() - rest@.len() ==> responses@[k + 1]
                    == ResponseMessage::Progression(#[trigger] all[k]),
        decreases rest.len(),
    {
        let ghost done = all.len() - rest@.len();
        let p = rest.remove(0);
        proof {
            assert(all.skip(done)[0] == all[done]);
            assert(p == all[done]);
            assert(rest@ =~= all.skip(done + 1));
        }
        responses.push(ResponseMessage::Progression(p));
    }
    let delivery: DeliveryAction;
    match result {
        Ok(res) => {
            let mut res = res;
            res.job_id = id;
            responses.push(ResponseMessage::Completed(res.with_status(JobStatus::Completed)));
            delivery = DeliveryAction::Ack;
        },
        Err(e) => {
            delivery = match &e {
                MessageError::NotImplemented() => DeliveryAction::Reject(true),
                MessageError::RequirementsError(_) => DeliveryAction::Reject(true),
                _ => DeliveryAction::Ack,
            };
            responses.push(ResponseMessage::Error(e));
        },
    }
    (responses, delivery)
}

/// One admitted job was appended and announced: the outcome of a successful
/// `InitProcess`.
pub open spec fn init_admitted(
    pre: Seq<ActiveJob>,
    post: Seq<ActiveJob>,
    outcome: OrderOutcome,
    job: Job,
) -> bool {
    &&& post == pre.push((ActiveJob { job: job, progression: 0 }))
    &&& outcome.responses@.len() == 1
    &&& outcome.responses@[0] matches ResponseMessage::Initialized(jr) && jr.job_id == job.job_id
        && jr.status is Unknown
    &&& outcome.delivery == DeliveryAction::Ack
}

/// Asks the probe about every path, in order: one answer per path. What
/// each answer is depends on the probe alone.
fn probe_paths<PP: PathProbe>(probe: &mut PP, paths: &Vec<String>) -> (answers: Vec<bool>)
    ensures
        answers@.len() == paths@.len(),
{
    let mut answers: Vec<bool> = Vec::new();
    let n = paths.len();
    for i in 0..n
        invariant
            n == paths@.len(),
            answers@.len() == i,
    {
        answers.push(probe.path_exists(&paths[i]));
    }
    answers
}

/// The decision of the requirements check over the probe's answers: there
/// is a missing path exactly when some answer is negative, and the returned
/// path is the first one answered negative.
pub fn first_missing_path(paths: &Vec<String>, answers: &Vec<bool>) -> (r: Option<String>)
    requires
        answers@.len() == paths@.len(),
    ensures
        r is Some <==> exists|i: int| 0 <= i < answers@.len() && !(#[trigger] answers@[i]),
        r matches Some(p) ==> exists|i: int|
            {
                &&& 0 <= i < answers@.len()
                &&& !(#[trigger] answers@[i])
                &&& (forall|j: int| 0 <= j < i ==> answers@[j])
                &&& p@ == paths@[i]@
            },
{
    let n = paths.len();
    for i in 0..n
        invariant
            n == paths@.len(),
            answers@.len() == n,
            forall|j: int| 0 <= j < i ==> answers@[j],
    {
        if !answers[i] {
            return Some(paths[i].clone());
        }
    }
    None
}

} // verus!
