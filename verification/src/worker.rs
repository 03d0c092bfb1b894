//! Worker identity: the handler trait, versions and the static configuration.

use vstd::prelude::*;

use crate::error::MessageError;
use crate::job::{Job, JobResult, ProgressionSink};

verus! {

/// A semantic version: `major.minor.patch`.
#[derive(Debug, Clone, Copy, PartialEq, Eq, Structural)]
pub struct Version {
    pub major: u64,
    pub minor: u64,
    pub patch: u64,
}

impl Version {
    pub fn new(major: u64, minor: u64, patch: u64) -> (v: Version)
        ensures
            v == (Version { major, minor, patch }),
    {
        Version { major, minor, patch }
    }
}

/// The version of this runtime, reported beside the worker's own version.
pub fn sdk_version() -> (v: Version)
    ensures
        v == (Version { major: 1, minor: 0, patch: 0 }),
{
    Version { major: 1, minor: 0, patch: 0 }
}

/// The user-supplied worker implementation: identity on one side, lifecycle
/// hooks on the other. The runtime drives these hooks and owes nothing about
/// their results; its own guarantees hold whatever a hook returns.
pub trait MessageEvent {
    fn get_name(&self) -> String;

    fn get_short_description(&self) -> String;

    fn get_description(&self) -> String;

    fn get_version(&self) -> Version;

    /// A JSON-schema description of the parameter object this worker accepts.
    fn get_parameters_schema(&self) -> String {
        String::from_str("{}")
    }

    /// Called once per worker before any job is accepted. A worker that
    /// does not override it has nothing to set up and reports success.
    fn init(&mut self) -> (r: Result<(), MessageError>)
        default_ensures
            r == Ok::<(), MessageError>(()),
    {
        Ok(())
    }

    /// The processing body of one job. Progression may be reported through
    /// the sink at any point; the result parameters are accumulated on the
    /// given job result. A worker that does not override it cannot process
    /// and answers not-implemented.
    fn process(&mut self, sink: &mut ProgressionSink, job: &Job, job_result: JobResult) -> (r:
        Result<JobResult, MessageError>)
        default_ensures
            r == Err::<JobResult, MessageError>(MessageError::NotImplemented()),
            final(sink)@ == old(sink)@,
    {
        Err(MessageError::NotImplemented())
    }
}

/// Static identity of a worker process: built once at startup, immutable
/// thereafter, serializable for the discovery mode.
#[derive(Debug, Clone)]
pub struct WorkerConfiguration {
    pub queue: String,
    pub worker_name: String,
    pub short_description: String,
    pub description: String,
    pub worker_version: Version,
    pub sdk_version: Version,
    pub instance_id: String,
    pub parameter_schema: String,
}

/// The mathematical value of a worker configuration.
pub struct WorkerConfigurationView {
    pub queue: Seq<char>,
    pub worker_name: Seq<char>,
    pub short_description: Seq<char>,
    pub description: Seq<char>,
    pub worker_version: Version,
    pub sdk_version: Version,
    pub instance_id: Seq<char>,
    pub parameter_schema: Seq<char>,
}

impl View for WorkerConfiguration {
    type V = WorkerConfigurationView;

    open spec fn view(&self) -> WorkerConfigurationView {
        WorkerConfigurationView {
            queue: self.queue@,
            worker_name: self.worker_name@,
            short_description: self.short_description@,
            description: self.description@,
            worker_version: self.worker_version,
            sdk_version: self.sdk_version,
            instance_id: self.instance_id@,
            parameter_schema: self.parameter_schema@,
        }
    }
}

impl WorkerConfiguration {
    /// Builds the configuration for `message_event`, serving `queue` under
    /// the given instance identifier.
    pub fn new<ME: MessageEvent>(queue: &String, message_event: &ME, instance_id: &String) -> (c:
        WorkerConfiguration)
        ensures
            c.queue@ == queue@,
            c.instance_id@ == instance_id@,
            c.sdk_version == (Version { major: 1, minor: 0, patch: 0 }),
    {
        WorkerConfiguration {
            queue: queue.clone(),
            worker_name: message_event.get_name(),
            short_description: message_event.get_short_description(),
            description: message_event.get_description(),
            worker_version: message_event.get_version(),
            sdk_version: sdk_version(),
            instance_id: instance_id.clone(),
            parameter_schema: message_event.get_parameters_schema(),
        }
    }

    pub fn get_worker_name(&self) -> (r: String)
        ensures
            r@ == self.worker_name@,
    {
        self.worker_name.clone()
    }

    pub fn get_worker_version(&self) -> (r: Version)
        ensures
            r == self.worker_version,
    {
        self.worker_version
    }

    pub fn get_sdk_version(&self) -> (r: Version)
        ensures
            r == self.sdk_version,
    {
        self.sdk_version
    }

    pub fn get_instance_id(&self) -> (r: String)
        ensures
            r@ == self.instance_id@,
    {
        self.instance_id.clone()
    }

    pub fn get_queue_name(&self) -> (r: String)
        ensures
            r@ == self.queue@,
    {
        self.queue.clone()
    }

    /// The per-instance control queue, bypassing the shared job queue.
    pub fn get_direct_messaging_queue_name(&self) -> (r: String)
        ensures
            r@ == "direct_messaging."@ + self.instance_id@,
    {
        String::from_str("direct_messaging.").concat(self.instance_id.as_str())
    }

    /// The queue carrying terminal results of completed jobs.
    pub fn get_completed_queue_name(&self) -> (r: String)
        ensures
            r@ == self.queue@ + "_completed"@,
    {
        self.queue.clone().concat("_completed")
    }

    /// The queue carrying terminal results of failed jobs.
    pub fn get_error_queue_name(&self) -> (r: String)
        ensures
            r@ == self.queue@ + "_error"@,
    {
        self.queue.clone().concat("_error")
    }
}

} // verus!
