//! Job model: typed parameters, requirements, results and progression.

use vstd::prelude::*;

use crate::clock::now_rfc3339;
use crate::error::MessageError;

verus! {

/// A reference to a secret held in an external credential store. The key is
/// exchanged for the secret value by a credential resolver; the secret itself
/// never lives in the job document.
#[derive(Debug, Clone, PartialEq, Eq)]
pub struct Credential {
    pub key: String,
}

/// Declarative preconditions of a job: paths that must exist before the job
/// may run.
#[derive(Debug, Clone, PartialEq, Eq)]
pub struct Requirement {
    pub paths: Vec<String>,
}

/// The discriminated value carried by one job parameter.
#[derive(Debug, Clone, PartialEq, Eq)]
pub enum ParameterValue {
    StringValue(String),
    IntegerValue(i64),
    BooleanValue(bool),
    ArrayOfStrings(Vec<String>),
    ArrayOfIntegers(Vec<i64>),
    /// A credential reference: the store code and the key inside that store.
    CredentialValue(String, Credential),
    Requirements(Requirement),
}

/// One named parameter of a job; the identifier is unique within a job.
#[derive(Debug, Clone, PartialEq, Eq)]
pub struct Parameter {
    pub id: String,
    pub value: ParameterValue,
}

/// A unit of work: a 64-bit identifier and an ordered parameter list.
/// Jobs are immutable once constructed.
#[derive(Debug, Clone)]
pub struct Job {
    pub job_id: u64,
    pub parameters: Vec<Parameter>,
}

/// The mathematical value of a parameter value: strings become character
/// sequences.
pub enum ParameterValueView {
    StringValue(Seq<char>),
    IntegerValue(i64),
    BooleanValue(bool),
    ArrayOfStrings(Seq<Seq<char>>),
    ArrayOfIntegers(Seq<i64>),
    CredentialValue(Seq<char>, Seq<char>),
    Requirements(Seq<Seq<char>>),
}

/// The mathematical value of a parameter.
pub struct ParameterView {
    pub id: Seq<char>,
    pub value: ParameterValueView,
}

/// The mathematical value of a job.
pub struct JobView {
    pub job_id: u64,
    pub parameters: Seq<ParameterView>,
}

impl View for ParameterValue {
    type V = ParameterValueView;

    open spec fn view(&self) -> ParameterValueView {
        match self {
            ParameterValue::StringValue(s) => ParameterValueView::StringValue(s@),
            ParameterValue::IntegerValue(n) => ParameterValueView::IntegerValue(*n),
            ParameterValue::BooleanValue(b) => ParameterValueView::BooleanValue(*b),
            ParameterValue::ArrayOfStrings(xs) => ParameterValueView::ArrayOfStrings(
                xs@.map_values(|x: String| x@),
            ),
            ParameterValue::ArrayOfIntegers(xs) => ParameterValueView::ArrayOfIntegers(xs@),
            ParameterValue::CredentialValue(store, c) => ParameterValueView::CredentialValue(
                store@,
                c.key@,
            ),
            ParameterValue::Requirements(req) => ParameterValueView::Requirements(
                req.paths@.map_values(|x: String| x@),
            ),
        }
    }
}

impl View for Parameter {
    type V = ParameterView;

    open spec fn view(&self) -> ParameterView {
        ParameterView { id: self.id@, value: self.value@ }
    }
}

impl View for Job {
    type V = JobView;

    open spec fn view(&self) -> JobView {
        JobView {
            job_id: self.job_id,
            parameters: self.parameters@.map_values(|p: Parameter| p@),
        }
    }
}

/// The first parameter of `params` carrying `id`, if any.
pub open spec fn spec_find_parameter(params: Seq<Parameter>, id: Seq<char>) -> Option<Parameter>
    decreases params.len(),
{
    if params.len() == 0 {
        None
    } else if params[0].id@ == id {
        Some(params[0])
    } else {
        spec_find_parameter(params.skip(1), id)
    }
}

proof fn lemma_find_parameter_skip(params: Seq<Parameter>, id: Seq<char>, i: int)
    requires
        0 <= i <= params.len(),
        forall|j: int| 0 <= j < i ==> params[j].id@ != id,
    ensures
        spec_find_parameter(params, id) == spec_find_parameter(params.skip(i), id),
    decreases i,
{
    if i > 0 {
        lemma_find_parameter_skip(params, id, i - 1);
        assert(params.skip(i - 1).len() > 0);
        assert(params.skip(i - 1)[0] == params[i - 1]);
        assert(params.skip(i - 1).skip(1) =~= params.skip(i));
    } else {
        assert(params.skip(0) =~= params);
    }
}

impl Job {
    /// Looks a parameter up by its identifier; the first match counts.
    pub fn get_parameter(&self, id: &String) -> (r: Option<&Parameter>)
        ensures
            match r {
                Some(p) => spec_find_parameter(self.parameters@, id@) == Some(*p),
                None => spec_find_parameter(self.parameters@, id@) is None,
            },
    {
        let n = self.parameters.len();
        for i in 0..n
            invariant
                n == self.parameters@.len(),
                forall|j: int| 0 <= j < i ==> self.parameters@[j].id@ != id@,
        {
            if self.parameters[i].id == *id {
                proof {
                    lemma_find_parameter_skip(self.parameters@, id@, i as int);
                    assert(self.parameters@.skip(i as int)[0] == self.parameters@[i as int]);
                }
                return Some(&self.parameters[i]);
            }
        }
        proof {
            lemma_find_parameter_skip(self.parameters@, id@, n as int);
            assert(self.parameters@.skip(n as int).len() == 0);
        }
        None
    }

    /// Typed extraction of a string parameter; a missing parameter or a
    /// type mismatch surfaces as a runtime error, never as a panic.
    pub fn get_string_parameter(&self, id: &String) -> (r: Result<String, MessageError>)
        ensures
            match spec_find_parameter(self.parameters@, id@) {
                Some(p) => match p.value {
                    ParameterValue::StringValue(s) => r matches Ok(v) && v@ == s@,
                    _ => r matches Err(e) && e is RuntimeError,
                },
                None => r matches Err(e) && e is RuntimeError,
            },
    {
        match self.get_parameter(id) {
            Some(p) => match &p.value {
                ParameterValue::StringValue(s) => Ok(s.clone()),
                _ => Err(MessageError::RuntimeError(String::from_str(
                    "parameter type mismatch",
                ))),
            },
            None => Err(MessageError::RuntimeError(String::from_str("parameter not found"))),
        }
    }

    /// Typed extraction of an integer parameter.
    pub fn get_integer_parameter(&self, id: &String) -> (r: Result<i64, MessageError>)
        ensures
            match spec_find_parameter(self.parameters@, id@) {
                Some(p) => match p.value {
                    ParameterValue::IntegerValue(v) => r == Ok::<i64, MessageError>(v),
                    _ => r matches Err(e) && e is RuntimeError,
                },
                None => r matches Err(e) && e is RuntimeError,
            },
    {
        match self.get_parameter(id) {
            Some(p) => match &p.value {
                ParameterValue::IntegerValue(v) => Ok(*v),
                _ => Err(MessageError::RuntimeError(String::from_str(
                    "parameter type mismatch",
                ))),
            },
            None => Err(MessageError::RuntimeError(String::from_str("parameter not found"))),
        }
    }

    /// Typed extraction of a boolean parameter.
    pub fn get_boolean_parameter(&self, id: &String) -> (r: Result<bool, MessageError>)
        ensures
            match spec_find_parameter(self.parameters@, id@) {
                Some(p) => match p.value {
                    ParameterValue::BooleanValue(v) => r == Ok::<bool, MessageError>(v),
                    _ => r matches Err(e) && e is RuntimeError,
                },
                None => r matches Err(e) && e is RuntimeError,
            },
    {
        match self.get_parameter(id) {
            Some(p) => match &p.value {
                ParameterValue::BooleanValue(v) => Ok(*v),
                _ => Err(MessageError::RuntimeError(String::from_str(
                    "parameter type mismatch",
                ))),
            },
            None => Err(MessageError::RuntimeError(String::from_str("parameter not found"))),
        }
    }

    /// Typed extraction of a credential parameter: the store code and the key.
    pub fn get_credential_parameter(&self, id: &String) -> (r: Result<
        (String, Credential),
        MessageError,
    >)
        ensures
            match spec_find_parameter(self.parameters@, id@) {
                Some(p) => match p.value {
                    ParameterValue::CredentialValue(store, c) => r matches Ok(v) && v.0@ == store@
                        && v.1.key@ == c.key@,
                    _ => r matches Err(e) && e is RuntimeError,
                },
                None => r matches Err(e) && e is RuntimeError,
            },
    {
        match self.get_parameter(id) {
            Some(p) => match &p.value {
                ParameterValue::CredentialValue(store, c) => Ok((
                    store.clone(),
                    Credential { key: c.key.clone() },
                )),
                _ => Err(MessageError::RuntimeError(String::from_str(
                    "parameter type mismatch",
                ))),
            },
            None => Err(MessageError::RuntimeError(String::from_str("parameter not found"))),
        }
    }

    /// The requirement paths declared by the reserved `requirements`
    /// parameter; empty when the job declares none.
    pub fn requirement_paths(&self) -> (r: Vec<String>)
        ensures
            r@ == spec_requirement_paths(*self),
    {
        let key = String::from_str("requirements");
        match self.get_parameter(&key) {
            Some(p) => match &p.value {
                ParameterValue::Requirements(req) => req.paths.clone(),
                _ => Vec::new(),
            },
            None => Vec::new(),
        }
    }
}

/// The collaborator that exchanges a credential key for the stored secret.
/// The embedding binary talks to the credential service; tests may answer
/// from a table. The library's guarantees hold whatever it answers.
pub trait CredentialResolver {
    fn resolve(&mut self, key: &String, store: &String) -> Result<String, String>;
}

impl Job {
    /// Reads a credential parameter and resolves it on the spot: the stored
    /// key is exchanged for the secret through the resolver, so the secret
    /// itself never lives in the job document. A missing parameter or a
    /// type mismatch is a runtime error; a resolution failure is a
    /// requirements error, so that the source delivery is requeued.
    pub fn get_credential_value<CR: CredentialResolver>(&self, id: &String, resolver: &mut CR) -> (r:
        Result<String, MessageError>)
        ensures
            match spec_find_parameter(self.parameters@, id@) {
                Some(p) => match p.value {
                    ParameterValue::CredentialValue(_, _) => r is Ok || (r matches Err(e) && e
                        is RequirementsError),
                    _ => r matches Err(e) && e is RuntimeError,
                },
                None => r matches Err(e) && e is RuntimeError,
            },
    {
        match self.get_credential_parameter(id) {
            Ok((store, credential)) => match resolver.resolve(&credential.key, &store) {
                Ok(value) => Ok(value),
                Err(message) => Err(MessageError::RequirementsError(message)),
            },
            Err(error) => Err(error),
        }
    }
}

/// The paths that must exist before the job may run.
pub open spec fn spec_requirement_paths(job: Job) -> Seq<String> {
    match spec_find_parameter(job.parameters@, "requirements"@) {
        Some(p) => match p.value {
            ParameterValue::Requirements(req) => req.paths@,
            _ => Seq::empty(),
        },
        None => Seq::empty(),
    }
}

/// The outcome classification of a job.
#[derive(Debug, Clone, Copy, PartialEq, Eq)]
pub enum JobStatus {
    Unknown,
    Completed,
    Error,
}

/// The outcome of a job: constructed fresh per job, accumulated during
/// processing, emitted exactly once at a terminal transition.
#[derive(Debug, Clone, PartialEq, Eq)]
pub struct JobResult {
    pub job_id: u64,
    pub status: JobStatus,
    pub parameters: Vec<Parameter>,
    pub datetime: String,
}

impl JobResult {
    /// A fresh result for the given job, with unknown status, no parameters
    /// and the creation timestamp taken from the wall clock.
    pub fn new(job_id: u64) -> (r: JobResult)
        ensures
            r.job_id == job_id,
            r.status is Unknown,
            r.parameters@.len() == 0,
    {
        JobResult {
            job_id,
            status: JobStatus::Unknown,
            parameters: Vec::new(),
            datetime: now_rfc3339(),
        }
    }

    /// The same result with the status replaced.
    pub fn with_status(self, status: JobStatus) -> (r: JobResult)
        ensures
            r.job_id == self.job_id,
            r.status == status,
            r.parameters == self.parameters,
            r.datetime == self.datetime,
    {
        JobResult { status, ..self }
    }

    /// Appends one result parameter.
    pub fn add_parameter(&mut self, parameter: Parameter)
        ensures
            final(self).job_id == old(self).job_id,
            final(self).status == old(self).status,
            final(self).datetime == old(self).datetime,
            final(self).parameters@ == old(self).parameters@.push(parameter),
    {
        self.parameters.push(parameter);
    }
}

/// A progression report: `progress` always lies in `[0, 100]`.
#[derive(Debug, Clone)]
pub struct JobProgression {
    pub job_id: u64,
    pub progress: u8,
    pub datetime: String,
}

/// The capability handed to a handler for reporting progression; reports are
/// forwarded to the exchange after the handler returns.
#[derive(Debug)]
pub struct ProgressionSink {
    items: Vec<JobProgression>,
}

impl View for ProgressionSink {
    type V = Seq<JobProgression>;

    closed spec fn view(&self) -> Seq<JobProgression> {
        self.items@
    }
}

impl ProgressionSink {
    /// An empty sink.
    pub fn new() -> (s: ProgressionSink)
        ensures
            s@.len() == 0,
    {
        ProgressionSink { items: Vec::new() }
    }

    /// Hands the collected reports out, oldest first.
    pub fn take_items(self) -> (v: Vec<JobProgression>)
        ensures
            v@ == self@,
    {
        self.items
    }
}

/// The value actually reported for a requested percentage: clamped to
/// `[0, 100]`.
pub open spec fn spec_clamp_progression(p: i64) -> u8 {
    if p < 0 {
        0
    } else if p > 100 {
        100
    } else {
        p as u8
    }
}

/// Emits one progression report on the sink. Whatever integer is requested,
/// the reported value lies in `[0, 100]`; each call appends exactly one
/// report.
pub fn publish_job_progression(sink: &mut ProgressionSink, job_id: u64, progression: i64) -> (r:
    Result<(), MessageError>)
    ensures
        r is Ok,
        final(sink)@.len() == old(sink)@.len() + 1,
        final(sink)@.take(old(sink)@.len() as int) == old(sink)@,
        final(sink)@.last().job_id == job_id,
        final(sink)@.last().progress == spec_clamp_progression(progression),
        0 <= final(sink)@.last().progress <= 100,
{
    let progress: u8 = if progression < 0 {
        0
    } else if progression > 100 {
        100
    } else {
        progression as u8
    };
    sink.items.push(JobProgression { job_id, progress, datetime: now_rfc3339() });
    proof {
        assert(sink.items@.take(old(sink)@.len() as int) =~= old(sink)@);
    }
    Ok(())
}

} // verus!
