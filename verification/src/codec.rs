//! The wire format: JSON encoding of jobs, results, progression and the
//! worker configuration, and decoding of order documents. The format is
//! stated by spec functions over character sequences; the executable
//! encoders and decoders are proved against them.

use vstd::prelude::*;

use crate::error::MessageError;
use crate::job::{
    Credential, Job, JobProgression, JobResult, JobStatus, JobView, Parameter, ParameterValue,
    ParameterValueView, ParameterView, Requirement,
};
use crate::message_exchange::{OrderMessage, ResponseMessage};
use crate::worker::{Version, WorkerConfiguration, WorkerConfigurationView};

verus! {

/// The decimal digit character for `d`.
pub open spec fn spec_digit_char(d: nat) -> char {
    if d == 0 {
        '0'
    } else if d == 1 {
        '1'
    } else if d == 2 {
        '2'
    } else if d == 3 {
        '3'
    } else if d == 4 {
        '4'
    } else if d == 5 {
        '5'
    } else if d == 6 {
        '6'
    } else if d == 7 {
        '7'
    } else if d == 8 {
        '8'
    } else {
        '9'
    }
}

/// The decimal rendering of a natural number, most significant digit first.
pub open spec fn spec_u64_dec(n: nat) -> Seq<char>
    decreases n,
{
    if n < 10 {
        seq![spec_digit_char(n)]
    } else {
        spec_u64_dec(n / 10).push(spec_digit_char(n % 10))
    }
}

/// The decimal rendering of an integer, with a leading minus sign when
/// negative.
pub open spec fn spec_i64_dec(v: int) -> Seq<char> {
    if v >= 0 {
        spec_u64_dec(v as nat)
    } else {
        seq!['-'] + spec_u64_dec((-v) as nat)
    }
}

/// How one character is written inside a JSON string: quotes, backslashes
/// and the common control characters are escaped, everything else stands as
/// it is. Rarer control characters are not escaped by this encoder.
pub open spec fn spec_escape_char(c: char) -> Seq<char> {
    if c == '"' {
        seq!['\\', '"']
    } else if c == '\\' {
        seq!['\\', '\\']
    } else if c == '\n' {
        seq!['\\', 'n']
    } else if c == '\t' {
        seq!['\\', 't']
    } else if c == '\r' {
        seq!['\\', 'r']
    } else {
        seq![c]
    }
}

/// The escaped body of a JSON string.
pub open spec fn spec_escape(s: Seq<char>) -> Seq<char>
    decreases s.len(),
{
    if s.len() == 0 {
        Seq::empty()
    } else {
        spec_escape_char(s[0]) + spec_escape(s.skip(1))
    }
}

/// A JSON string: quote, escaped body, quote.
pub open spec fn spec_json_string(s: Seq<char>) -> Seq<char> {
    seq!['"'] + spec_escape(s) + seq!['"']
}

/// `major.minor.patch`.
pub open spec fn spec_version_chars(v: Version) -> Seq<char> {
    spec_u64_dec(v.major as nat) + seq!['.'] + spec_u64_dec(v.minor as nat) + seq!['.']
        + spec_u64_dec(v.patch as nat)
}

/// Appends every character of `s` from position `i` on.
fn push_str_from(out: &mut Vec<char>, s: &str, i: usize)
    requires
        i <= s@.len(),
    ensures
        final(out)@ == old(out)@ + s@.skip(i as int),
    decreases s@.len() - i,
{
    let n = s.unicode_len();
    if i < n {
        out.push(s.get_char(i));
        push_str_from(out, s, i + 1);
        proof {
            assert(s@.skip(i as int) =~= seq![s@[i as int]] + s@.skip(i as int + 1));
            assert(old(out)@ + s@.skip(i as int) =~= (old(out)@.push(s@[i as int])) + s@.skip(
                i as int + 1,
            ));
        }
    } else {
        proof {
            assert(s@.skip(i as int) =~= Seq::<char>::empty());
            assert(old(out)@ + s@.skip(i as int) =~= old(out)@);
        }
    }
}

/// Appends every character of `s`.
fn push_str(out: &mut Vec<char>, s: &str)
    ensures
        final(out)@ == old(out)@ + s@,
{
    push_str_from(out, s, 0);
    proof {
        assert(s@.skip(0) =~= s@);
    }
}

/// The decimal digit character for `d`.
fn digit_char_of(d: u64) -> (c: char)
    requires
        d < 10,
    ensures
        c == spec_digit_char(d as nat),
{
    if d == 0 {
        '0'
    } else if d == 1 {
        '1'
    } else if d == 2 {
        '2'
    } else if d == 3 {
        '3'
    } else if d == 4 {
        '4'
    } else if d == 5 {
        '5'
    } else if d == 6 {
        '6'
    } else if d == 7 {
        '7'
    } else if d == 8 {
        '8'
    } else {
        '9'
    }
}

/// Appends the decimal rendering of `n`.
fn push_u64(out: &mut Vec<char>, n: u64)
    ensures
        final(out)@ == old(out)@ + spec_u64_dec(n as nat),
    decreases n,
{
    if n < 10 {
        out.push(digit_char_of(n));
        proof {
            assert(old(out)@ + spec_u64_dec(n as nat) =~= old(out)@.push(
                spec_digit_char(n as nat),
            ));
        }
    } else {
        push_u64(out, n / 10);
        out.push(digit_char_of(n % 10));
        proof {
            assert(old(out)@ + spec_u64_dec(n as nat) =~= (old(out)@ + spec_u64_dec(
                (n / 10) as nat,
            )).push(spec_digit_char((n % 10) as nat)));
        }
    }
}

/// Appends the decimal rendering of `v`, sign included.
fn push_i64(out: &mut Vec<char>, v: i64)
    ensures
        final(out)@ == old(out)@ + spec_i64_dec(v as int),
{
    if v >= 0 {
        push_u64(out, v as u64);
    } else {
        out.push('-');
        let magnitude: u64 = if v <= -9223372036854775807i64 - 1 {
            9223372036854775808u64
        } else {
            (-v) as u64
        };
        push_u64(out, magnitude);
        proof {
            assert(old(out)@ + spec_i64_dec(v as int) =~= (old(out)@.push('-')) + spec_u64_dec(
                magnitude as nat,
            ));
        }
    }
}

/// Appends `s` escaped, from position `i` on.
fn push_escaped_from(out: &mut Vec<char>, s: &str, i: usize)
    requires
        i <= s@.len(),
    ensures
        final(out)@ == old(out)@ + spec_escape(s@.skip(i as int)),
    decreases s@.len() - i,
{
    let n = s.unicode_len();
    if i < n {
        let c = s.get_char(i);
        if c == '"' {
            out.push('\\');
            out.push('"');
        } else if c == '\\' {
            out.push('\\');
            out.push('\\');
        } else if c == '\n' {
            out.push('\\');
            out.push('n');
        } else if c == '\t' {
            out.push('\\');
            out.push('t');
        } else if c == '\r' {
            out.push('\\');
            out.push('r');
        } else {
            out.push(c);
        }
        let ghost mid = out@;
        proof {
            assert(mid =~= old(out)@ + spec_escape_char(s@[i as int]));
        }
        push_escaped_from(out, s, i + 1);
        proof {
            assert(s@.skip(i as int)[0] == s@[i as int]);
            assert(s@.skip(i as int).skip(1) =~= s@.skip(i as int + 1));
            assert(spec_escape(s@.skip(i as int)) == spec_escape_char(s@[i as int]) + spec_escape(
                s@.skip(i as int + 1),
            ));
            assert(old(out)@ + spec_escape(s@.skip(i as int)) =~= mid + spec_escape(
                s@.skip(i as int + 1),
            ));
        }
    } else {
        proof {
            assert(s@.skip(i as int) =~= Seq::<char>::empty());
            assert(spec_escape(s@.skip(i as int)) =~= Seq::<char>::empty());
            assert(old(out)@ + spec_escape(s@.skip(i as int)) =~= old(out)@);
        }
    }
}

/// Appends `s` as a JSON string: quoted, with quotes and backslashes
/// escaped.
fn push_json_string(out: &mut Vec<char>, s: &str)
    ensures
        final(out)@ == old(out)@ + spec_json_string(s@),
{
    out.push('"');
    push_escaped_from(out, s, 0);
    out.push('"');
    proof {
        assert(s@.skip(0) =~= s@);
        assert(old(out)@ + spec_json_string(s@) =~= ((old(out)@.push('"')) + spec_escape(
            s@,
        )).push('"'));
    }
}

/// Appends `major.minor.patch`.
fn push_version(out: &mut Vec<char>, v: &Version)
    ensures
        final(out)@ == old(out)@ + spec_version_chars(*v),
{
    push_u64(out, v.major);
    out.push('.');
    push_u64(out, v.minor);
    out.push('.');
    push_u64(out, v.patch);
    proof {
        assert(old(out)@ + spec_version_chars(*v) =~= ((((old(out)@ + spec_u64_dec(
            v.major as nat,
        )).push('.')) + spec_u64_dec(v.minor as nat)).push('.')) + spec_u64_dec(v.patch as nat));
    }
}

/// Relies on `String::from_iter`: collecting characters yields a string of
/// exactly those characters.
#[verifier::external_body]
fn chars_to_string(v: &Vec<char>) -> (r: String)
    ensures
        r@ == v@,
{
    v.iter().collect()
}

/// The wire name of a job status.
pub open spec fn spec_status_chars(s: JobStatus) -> Seq<char> {
    match s {
        JobStatus::Unknown => "unknown"@,
        JobStatus::Completed => "completed"@,
        JobStatus::Error => "error"@,
    }
}

/// The comma-separated items of an array of JSON strings, from `i` on.
pub open spec fn spec_string_items(xs: Seq<String>, i: int) -> Seq<char>
    decreases xs.len() - i,
{
    if i < 0 || i >= xs.len() {
        Seq::empty()
    } else if i == xs.len() - 1 {
        spec_json_string(xs[i]@)
    } else {
        spec_json_string(xs[i]@) + seq![','] + spec_string_items(xs, i + 1)
    }
}

/// The comma-separated items of an array of integers, from `i` on.
pub open spec fn spec_int_items(xs: Seq<i64>, i: int) -> Seq<char>
    decreases xs.len() - i,
{
    if i < 0 || i >= xs.len() {
        Seq::empty()
    } else if i == xs.len() - 1 {
        spec_i64_dec(xs[i] as int)
    } else {
        spec_i64_dec(xs[i] as int) + seq![','] + spec_int_items(xs, i + 1)
    }
}

/// One encoded parameter: its identifier, its discriminating type name, and
/// its value; credential parameters carry the store beside the key.
pub open spec fn spec_parameter_json(p: Parameter) -> Seq<char> {
    match p.value {
        ParameterValue::StringValue(s) => "{\"id\":"@ + spec_json_string(p.id@)
            + ",\"type\":\"string\",\"value\":"@ + spec_json_string(s@) + "}"@,
        ParameterValue::IntegerValue(n) => "{\"id\":"@ + spec_json_string(p.id@)
            + ",\"type\":\"integer\",\"value\":"@ + spec_i64_dec(n as int) + "}"@,
        ParameterValue::BooleanValue(b) => "{\"id\":"@ + spec_json_string(p.id@)
            + ",\"type\":\"boolean\",\"value\":"@ + (if b {
            "true"@
        } else {
            "false"@
        }) + "}"@,
        ParameterValue::ArrayOfStrings(xs) => "{\"id\":"@ + spec_json_string(p.id@)
            + ",\"type\":\"array_of_strings\",\"value\":["@ + spec_string_items(xs@, 0) + "]}"@,
        ParameterValue::ArrayOfIntegers(xs) => "{\"id\":"@ + spec_json_string(p.id@)
            + ",\"type\":\"array_of_integers\",\"value\":["@ + spec_int_items(xs@, 0) + "]}"@,
        ParameterValue::CredentialValue(store, c) => "{\"id\":"@ + spec_json_string(p.id@)
            + ",\"type\":\"credential\",\"store\":"@ + spec_json_string(store@) + ",\"value\":"@
            + spec_json_string(c.key@) + "}"@,
        ParameterValue::Requirements(req) => "{\"id\":"@ + spec_json_string(p.id@)
            + ",\"type\":\"requirements\",\"value\":{\"paths\":["@ + spec_string_items(
            req.paths@,
            0,
        ) + "]}}"@,
    }
}

/// The comma-separated encoded parameters, from `i` on.
pub open spec fn spec_parameter_items(ps: Seq<Parameter>, i: int) -> Seq<char>
    decreases ps.len() - i,
{
    if i < 0 || i >= ps.len() {
        Seq::empty()
    } else if i == ps.len() - 1 {
        spec_parameter_json(ps[i])
    } else {
        spec_parameter_json(ps[i]) + seq![','] + spec_parameter_items(ps, i + 1)
    }
}

/// The encoded parameter list.
pub open spec fn spec_parameters_json(ps: Seq<Parameter>) -> Seq<char> {
    seq!['['] + spec_parameter_items(ps, 0) + seq![']']
}

/// The encoded order document of a job.
pub open spec fn spec_job_json(job: Job) -> Seq<char> {
    "{\"job_id\":"@ + spec_u64_dec(job.job_id as nat) + ",\"parameters\":"@
        + spec_parameters_json(job.parameters@) + "}"@
}

/// The encoded result of a job.
pub open spec fn spec_job_result_json(r: JobResult) -> Seq<char> {
    "{\"job_id\":"@ + spec_u64_dec(r.job_id as nat) + ",\"status\":\""@ + spec_status_chars(
        r.status,
    ) + "\",\"parameters\":"@ + spec_parameters_json(r.parameters@) + ",\"datetime\":"@
        + spec_json_string(r.datetime@) + "}"@
}

/// The encoded progression report of a job.
pub open spec fn spec_progression_json(p: JobProgression) -> Seq<char> {
    "{\"job_id\":"@ + spec_u64_dec(p.job_id as nat) + ",\"progression\":"@ + spec_u64_dec(
        p.progress as nat,
    ) + ",\"datetime\":"@ + spec_json_string(p.datetime@) + "}"@
}

/// The encoded worker configuration, as the discovery mode prints it. The
/// parameter schema is already JSON and stands as it is.
pub open spec fn spec_config_json(c: WorkerConfiguration) -> Seq<char> {
    "{\"queue\":"@ + spec_json_string(c.queue@) + ",\"worker_name\":"@ + spec_json_string(
        c.worker_name@,
    ) + ",\"worker_version\":\""@ + spec_version_chars(c.worker_version) + "\",\"sdk_version\":\""@
        + spec_version_chars(c.sdk_version) + "\",\"instance_id\":"@ + spec_json_string(
        c.instance_id@,
    ) + ",\"parameters\":"@ + c.parameter_schema@ + "}"@
}

/// The encoded error response: the message, and the job identifier where
/// the error names one.
pub open spec fn spec_error_json(e: MessageError) -> Seq<char> {
    match e {
        MessageError::ProcessingError(id, m) => "{\"job_id\":"@ + spec_u64_dec(id as nat)
            + ",\"status\":\"error\",\"message\":"@ + spec_json_string(m@) + "}"@,
        MessageError::ParseError(m) => "{\"status\":\"error\",\"message\":"@ + spec_json_string(m@)
            + "}"@,
        MessageError::RequirementsError(m) => "{\"status\":\"error\",\"message\":"@
            + spec_json_string(m@) + "}"@,
        MessageError::RuntimeError(m) => "{\"status\":\"error\",\"message\":"@ + spec_json_string(
            m@,
        ) + "}"@,
        MessageError::NotImplemented() => "{\"status\":\"error\",\"message\":\"not implemented\"}"@,
    }
}

/// The encoded payload of one response message.
pub open spec fn spec_response_json(r: ResponseMessage) -> Seq<char> {
    match r {
        ResponseMessage::Initialized(jr) => spec_job_result_json(jr),
        ResponseMessage::Started(jr) => spec_job_result_json(jr),
        ResponseMessage::Completed(jr) => spec_job_result_json(jr),
        ResponseMessage::Progression(p) => spec_progression_json(p),
        ResponseMessage::Error(e) => spec_error_json(e),
        ResponseMessage::WorkerCreated(c) => spec_config_json(c),
        ResponseMessage::WorkerInitialized(jr) => spec_job_result_json(jr),
        ResponseMessage::WorkerStarted(jr) => spec_job_result_json(jr),
    }
}

/// Appends the comma-separated items of an array of JSON strings.
fn push_string_items(out: &mut Vec<char>, xs: &Vec<String>, i: usize)
    requires
        i <= xs@.len(),
    ensures
        final(out)@ == old(out)@ + spec_string_items(xs@, i as int),
    decreases xs@.len() - i,
{
    if i < xs.len() {
        push_json_string(out, xs[i].as_str());
        if i + 1 < xs.len() {
            out.push(',');
            let ghost mid = out@;
            push_string_items(out, xs, i + 1);
            proof {
                assert(out@ =~= old(out)@ + spec_string_items(xs@, i as int));
            }
        }
    }
}

/// Appends the comma-separated items of an array of integers.
fn push_int_items(out: &mut Vec<char>, xs: &Vec<i64>, i: usize)
    requires
        i <= xs@.len(),
    ensures
        final(out)@ == old(out)@ + spec_int_items(xs@, i as int),
    decreases xs@.len() - i,
{
    if i < xs.len() {
        push_i64(out, xs[i]);
        if i + 1 < xs.len() {
            out.push(',');
            push_int_items(out, xs, i + 1);
            proof {
                assert(out@ =~= old(out)@ + spec_int_items(xs@, i as int));
            }
        }
    }
}

/// Appends one encoded parameter.
fn push_parameter(out: &mut Vec<char>, p: &Parameter)
    ensures
        final(out)@ == old(out)@ + spec_parameter_json(*p),
{
    push_str(out, "{\"id\":");
    push_json_string(out, p.id.as_str());
    match &p.value {
        ParameterValue::StringValue(s) => {
            push_str(out, ",\"type\":\"string\",\"value\":");
            push_json_string(out, s.as_str());
            push_str(out, "}");
        },
        ParameterValue::IntegerValue(n) => {
            push_str(out, ",\"type\":\"integer\",\"value\":");
            push_i64(out, *n);
            push_str(out, "}");
        },
        ParameterValue::BooleanValue(b) => {
            push_str(out, ",\"type\":\"boolean\",\"value\":");
            if *b {
                push_str(out, "true");
            } else {
                push_str(out, "false");
            }
            push_str(out, "}");
        },
        ParameterValue::ArrayOfStrings(xs) => {
            push_str(out, ",\"type\":\"array_of_strings\",\"value\":[");
            push_string_items(out, xs, 0);
            push_str(out, "]}");
        },
        ParameterValue::ArrayOfIntegers(xs) => {
            push_str(out, ",\"type\":\"array_of_integers\",\"value\":[");
            push_int_items(out, xs, 0);
            push_str(out, "]}");
        },
        ParameterValue::CredentialValue(store, c) => {
            push_str(out, ",\"type\":\"credential\",\"store\":");
            push_json_string(out, store.as_str());
            push_str(out, ",\"value\":");
            push_json_string(out, c.key.as_str());
            push_str(out, "}");
        },
        ParameterValue::Requirements(req) => {
            push_str(out, ",\"type\":\"requirements\",\"value\":{\"paths\":[");
            push_string_items(out, &req.paths, 0);
            push_str(out, "]}}");
        },
    }
    proof {
        assert(out@ =~= old(out)@ + spec_parameter_json(*p));
    }
}

/// Appends the comma-separated encoded parameters.
fn push_parameter_items(out: &mut Vec<char>, ps: &Vec<Parameter>, i: usize)
    requires
        i <= ps@.len(),
    ensures
        final(out)@ == old(out)@ + spec_parameter_items(ps@, i as int),
    decreases ps@.len() - i,
{
    if i < ps.len() {
        push_parameter(out, &ps[i]);
        if i + 1 < ps.len() {
            out.push(',');
            push_parameter_items(out, ps, i + 1);
            proof {
                assert(out@ =~= old(out)@ + spec_parameter_items(ps@, i as int));
            }
        }
    }
}

/// Appends the encoded parameter list.
fn push_parameters(out: &mut Vec<char>, ps: &Vec<Parameter>)
    ensures
        final(out)@ == old(out)@ + spec_parameters_json(ps@),
{
    out.push('[');
    push_parameter_items(out, ps, 0);
    out.push(']');
    proof {
        assert(out@ =~= old(out)@ + spec_parameters_json(ps@));
    }
}

/// Encodes a job as its order document.
pub fn serialize_job(job: &Job) -> (s: String)
    ensures
        s@ == spec_job_json(*job),
{
    let mut out: Vec<char> = Vec::new();
    push_str(&mut out, "{\"job_id\":");
    push_u64(&mut out, job.job_id);
    push_str(&mut out, ",\"parameters\":");
    push_parameters(&mut out, &job.parameters);
    push_str(&mut out, "}");
    proof {
        assert(out@ =~= spec_job_json(*job));
    }
    chars_to_string(&out)
}

/// Encodes a job result.
pub fn serialize_job_result(r: &JobResult) -> (s: String)
    ensures
        s@ == spec_job_result_json(*r),
{
    let mut out: Vec<char> = Vec::new();
    push_str(&mut out, "{\"job_id\":");
    push_u64(&mut out, r.job_id);
    push_str(&mut out, ",\"status\":\"");
    match r.status {
        JobStatus::Unknown => push_str(&mut out, "unknown"),
        JobStatus::Completed => push_str(&mut out, "completed"),
        JobStatus::Error => push_str(&mut out, "error"),
    }
    push_str(&mut out, "\",\"parameters\":");
    push_parameters(&mut out, &r.parameters);
    push_str(&mut out, ",\"datetime\":");
    push_json_string(&mut out, r.datetime.as_str());
    push_str(&mut out, "}");
    proof {
        assert(out@ =~= spec_job_result_json(*r));
    }
    chars_to_string(&out)
}

/// Encodes a progression report.
pub fn serialize_progression(p: &JobProgression) -> (s: String)
    ensures
        s@ == spec_progression_json(*p),
{
    let mut out: Vec<char> = Vec::new();
    push_str(&mut out, "{\"job_id\":");
    push_u64(&mut out, p.job_id);
    push_str(&mut out, ",\"progression\":");
    push_u64(&mut out, p.progress as u64);
    push_str(&mut out, ",\"datetime\":");
    push_json_string(&mut out, p.datetime.as_str());
    push_str(&mut out, "}");
    proof {
        assert(out@ =~= spec_progression_json(*p));
    }
    chars_to_string(&out)
}

/// Encodes the worker configuration for the discovery mode.
pub fn serialize_worker_configuration(c: &WorkerConfiguration) -> (s: String)
    ensures
        s@ == spec_config_json(*c),
{
    let mut out: Vec<char> = Vec::new();
    push_str(&mut out, "{\"queue\":");
    push_json_string(&mut out, c.queue.as_str());
    push_str(&mut out, ",\"worker_name\":");
    push_json_string(&mut out, c.worker_name.as_str());
    push_str(&mut out, ",\"worker_version\":\"");
    push_version(&mut out, &c.worker_version);
    push_str(&mut out, "\",\"sdk_version\":\"");
    push_version(&mut out, &c.sdk_version);
    push_str(&mut out, "\",\"instance_id\":");
    push_json_string(&mut out, c.instance_id.as_str());
    push_str(&mut out, ",\"parameters\":");
    push_str(&mut out, c.parameter_schema.as_str());
    push_str(&mut out, "}");
    proof {
        assert(out@ =~= spec_config_json(*c));
    }
    chars_to_string(&out)
}

/// Encodes an error as its response payload.
pub fn serialize_error(e: &MessageError) -> (s: String)
    ensures
        s@ == spec_error_json(*e),
{
    let mut out: Vec<char> = Vec::new();
    match e {
        MessageError::ProcessingError(id, m) => {
            push_str(&mut out, "{\"job_id\":");
            push_u64(&mut out, *id);
            push_str(&mut out, ",\"status\":\"error\",\"message\":");
            push_json_string(&mut out, m.as_str());
            push_str(&mut out, "}");
        },
        MessageError::ParseError(m) => {
            push_str(&mut out, "{\"status\":\"error\",\"message\":");
            push_json_string(&mut out, m.as_str());
            push_str(&mut out, "}");
        },
        MessageError::RequirementsError(m) => {
            push_str(&mut out, "{\"status\":\"error\",\"message\":");
            push_json_string(&mut out, m.as_str());
            push_str(&mut out, "}");
        },
        MessageError::RuntimeError(m) => {
            push_str(&mut out, "{\"status\":\"error\",\"message\":");
            push_json_string(&mut out, m.as_str());
            push_str(&mut out, "}");
        },
        MessageError::NotImplemented() => {
            push_str(&mut out, "{\"status\":\"error\",\"message\":\"not implemented\"}");
        },
    }
    proof {
        assert(out@ =~= spec_error_json(*e));
    }
    chars_to_string(&out)
}

/// A JSON whitespace character.
pub open spec fn spec_is_ws(c: char) -> bool {
    c == ' ' || c == '\n' || c == '\t' || c == '\r'
}

/// The first position at or after `i` that does not carry whitespace.
pub open spec fn spec_ws(s: Seq<char>, i: int) -> int
    decreases s.len() - i,
{
    if 0 <= i < s.len() && spec_is_ws(s[i]) {
        spec_ws(s, i + 1)
    } else {
        i
    }
}

/// A decimal digit.
pub open spec fn spec_is_digit(c: char) -> bool {
    ||| c == '0'
    ||| c == '1'
    ||| c == '2'
    ||| c == '3'
    ||| c == '4'
    ||| c == '5'
    ||| c == '6'
    ||| c == '7'
    ||| c == '8'
    ||| c == '9'
}

/// The value of a decimal digit.
pub open spec fn spec_digit_val(c: char) -> nat {
    if c == '0' {
        0
    } else if c == '1' {
        1
    } else if c == '2' {
        2
    } else if c == '3' {
        3
    } else if c == '4' {
        4
    } else if c == '5' {
        5
    } else if c == '6' {
        6
    } else if c == '7' {
        7
    } else if c == '8' {
        8
    } else {
        9
    }
}

/// Consumes the maximal digit run from `i`, accumulating onto `acc`; a value
/// beyond the 64-bit range is a failure.
pub open spec fn spec_scan_u64(s: Seq<char>, i: int, acc: u64) -> Option<(u64, int)>
    decreases s.len() - i,
{
    if !(0 <= i < s.len()) || !spec_is_digit(s[i]) {
        Some((acc, i))
    } else if acc as int * 10 + spec_digit_val(s[i]) > u64::MAX as int {
        None
    } else {
        spec_scan_u64(s, i + 1, (acc as int * 10 + spec_digit_val(s[i])) as u64)
    }
}

/// A decimal natural number at `i`: at least one digit, value within the
/// 64-bit range.
pub open spec fn spec_parse_u64(s: Seq<char>, i: int) -> Option<(u64, int)> {
    if 0 <= i < s.len() && spec_is_digit(s[i]) {
        spec_scan_u64(s, i, 0)
    } else {
        None
    }
}

/// The next `lit.len()` characters are exactly `lit`.
pub open spec fn spec_expect(s: Seq<char>, i: int, lit: Seq<char>) -> Option<int> {
    if 0 <= i && i + lit.len() <= s.len() && s.subrange(i, i + lit.len() as int) == lit {
        Some(i + lit.len() as int)
    } else {
        None
    }
}

/// The character an escape sequence stands for: the standard simple JSON
/// escapes, without the `\u` form.
pub open spec fn spec_unescape(c: char) -> Option<char> {
    if c == '"' {
        Some('"')
    } else if c == '\\' {
        Some('\\')
    } else if c == '/' {
        Some('/')
    } else if c == 'n' {
        Some('\n')
    } else if c == 't' {
        Some('\t')
    } else if c == 'r' {
        Some('\r')
    } else if c == 'b' {
        Some('\u{0008}')
    } else if c == 'f' {
        Some('\u{000C}')
    } else {
        None
    }
}

/// The body of a JSON string from `i` on (the opening quote already
/// consumed): its unescaped content and the position after the closing
/// quote. Only the quote and backslash escapes are understood.
pub open spec fn spec_scan_string(s: Seq<char>, i: int) -> Option<(Seq<char>, int)>
    decreases s.len() - i,
{
    if !(0 <= i < s.len()) {
        None
    } else if s[i] == '"' {
        Some((Seq::empty(), i + 1))
    } else if s[i] == '\\' {
        if i + 1 < s.len() {
            match spec_unescape(s[i + 1]) {
                Some(u) => match spec_scan_string(s, i + 2) {
                    Some((t, j)) => Some((seq![u] + t, j)),
                    None => None,
                },
                None => None,
            }
        } else {
            None
        }
    } else {
        match spec_scan_string(s, i + 1) {
            Some((t, j)) => Some((seq![s[i]] + t, j)),
            None => None,
        }
    }
}

/// A JSON string at `i`: quote, body, quote.
pub open spec fn spec_parse_string(s: Seq<char>, i: int) -> Option<(Seq<char>, int)> {
    if 0 <= i < s.len() && s[i] == '"' {
        spec_scan_string(s, i + 1)
    } else {
        None
    }
}

/// Skips whitespace.
fn skip_ws(s: &Vec<char>, i: usize) -> (r: usize)
    requires
        i <= s@.len(),
    ensures
        r as int == spec_ws(s@, i as int),
        i <= r <= s@.len(),
    decreases s@.len() - i,
{
    if i < s.len() {
        let c = s[i];
        if c == ' ' || c == '\n' || c == '\t' || c == '\r' {
            skip_ws(s, i + 1)
        } else {
            i
        }
    } else {
        i
    }
}

/// Whether `c` is a decimal digit.
fn is_digit_char(c: char) -> (r: bool)
    ensures
        r == spec_is_digit(c),
{
    c == '0' || c == '1' || c == '2' || c == '3' || c == '4' || c == '5' || c == '6' || c == '7'
        || c == '8' || c == '9'
}

/// The value of a decimal digit.
fn digit_val(c: char) -> (r: u64)
    requires
        spec_is_digit(c),
    ensures
        r as nat == spec_digit_val(c),
        r < 10,
{
    if c == '0' {
        0
    } else if c == '1' {
        1
    } else if c == '2' {
        2
    } else if c == '3' {
        3
    } else if c == '4' {
        4
    } else if c == '5' {
        5
    } else if c == '6' {
        6
    } else if c == '7' {
        7
    } else if c == '8' {
        8
    } else {
        9
    }
}

/// Consumes the maximal digit run from `i` onto `acc`.
fn scan_u64(s: &Vec<char>, i: usize, acc: u64) -> (r: Option<(u64, usize)>)
    requires
        i <= s@.len(),
    ensures
        match r {
            Some(p) => spec_scan_u64(s@, i as int, acc) == Some((p.0, p.1 as int)) && i <= p.1
                <= s@.len(),
            None => spec_scan_u64(s@, i as int, acc) is None,
        },
    decreases s@.len() - i,
{
    if i < s.len() && is_digit_char(s[i]) {
        let d = digit_val(s[i]);
        if acc as u128 * 10 + d as u128 > u64::MAX as u128 {
            None
        } else {
            scan_u64(s, i + 1, acc * 10 + d)
        }
    } else {
        Some((acc, i))
    }
}

/// Reads a decimal natural number at `i`.
fn parse_u64_at(s: &Vec<char>, i: usize) -> (r: Option<(u64, usize)>)
    requires
        i <= s@.len(),
    ensures
        match r {
            Some(p) => spec_parse_u64(s@, i as int) == Some((p.0, p.1 as int)) && i <= p.1
                <= s@.len(),
            None => spec_parse_u64(s@, i as int) is None,
        },
{
    if i < s.len() && is_digit_char(s[i]) {
        scan_u64(s, i, 0)
    } else {
        None
    }
}

/// Checks the next characters against `lit`.
fn expect_lit(s: &Vec<char>, i: usize, lit: &str) -> (r: Option<usize>)
    requires
        i <= s@.len(),
    ensures
        match r {
            Some(j) => spec_expect(s@, i as int, lit@) == Some(j as int) && i <= j <= s@.len(),
            None => spec_expect(s@, i as int, lit@) is None,
        },
{
    let m = lit.unicode_len();
    let n = s.len();
    if n - i < m {
        return None;
    }
    let mut k: usize = 0;
    while k < m
        invariant
            n == s@.len(),
            i + m <= n,
            m == lit@.len(),
            k <= m,
            forall|t: int| 0 <= t < k ==> s@[i + t] == lit@[t],
        decreases m - k,
    {
        if s[i + k] != lit.get_char(k) {
            proof {
                assert(s@.subrange(i as int, i + lit@.len() as int)[k as int] != lit@[k as int]);
            }
            return None;
        }
        k = k + 1;
    }
    proof {
        assert(s@.subrange(i as int, i + lit@.len() as int) =~= lit@);
    }
    Some(i + m)
}

/// The character an escape sequence stands for.
fn unescape_char(c: char) -> (r: Option<char>)
    ensures
        r == spec_unescape(c),
{
    if c == '"' {
        Some('"')
    } else if c == '\\' {
        Some('\\')
    } else if c == '/' {
        Some('/')
    } else if c == 'n' {
        Some('\n')
    } else if c == 't' {
        Some('\t')
    } else if c == 'r' {
        Some('\r')
    } else if c == 'b' {
        Some('\u{0008}')
    } else if c == 'f' {
        Some('\u{000C}')
    } else {
        None
    }
}

/// Reads the body of a JSON string, the opening quote already consumed.
fn scan_string(s: &Vec<char>, i: usize) -> (r: Option<(Vec<char>, usize)>)
    requires
        i <= s@.len(),
    ensures
        match r {
            Some(p) => spec_scan_string(s@, i as int) == Some((p.0@, p.1 as int)) && i <= p.1
                <= s@.len(),
            None => spec_scan_string(s@, i as int) is None,
        },
    decreases s@.len() - i,
{
    if i >= s.len() {
        None
    } else if s[i] == '"' {
        Some((Vec::new(), i + 1))
    } else if s[i] == '\\' {
        if i + 1 < s.len() {
            match unescape_char(s[i + 1]) {
                Some(u) => match scan_string(s, i + 2) {
                    Some((t, j)) => {
                        let mut t = t;
                        let ghost before = t@;
                        t.insert(0, u);
                        proof {
                            assert(t@ =~= seq![u] + before);
                        }
                        Some((t, j))
                    },
                    None => None,
                },
                None => None,
            }
        } else {
            None
        }
    } else {
        match scan_string(s, i + 1) {
            Some((t, j)) => {
                let mut t = t;
                let ghost before = t@;
                t.insert(0, s[i]);
                proof {
                    assert(t@ =~= seq![s@[i as int]] + before);
                }
                Some((t, j))
            },
            None => None,
        }
    }
}

/// Reads a JSON string at `i`.
fn parse_string_at(s: &Vec<char>, i: usize) -> (r: Option<(Vec<char>, usize)>)
    requires
        i <= s@.len(),
    ensures
        match r {
            Some(p) => spec_parse_string(s@, i as int) == Some((p.0@, p.1 as int)) && i <= p.1
                <= s@.len(),
            None => spec_parse_string(s@, i as int) is None,
        },
{
    if i < s.len() && s[i] == '"' {
        scan_string(s, i + 1)
    } else {
        None
    }
}

/// A literal after optional whitespace.
pub open spec fn spec_tok(s: Seq<char>, i: int, lit: Seq<char>) -> Option<int> {
    spec_expect(s, spec_ws(s, i), lit)
}

/// A decimal integer at `i`, an optional minus sign first.
pub open spec fn spec_parse_i64(s: Seq<char>, i: int) -> Option<(i64, int)> {
    if 0 <= i < s.len() && s[i] == '-' {
        match spec_parse_u64(s, i + 1) {
            Some((v, j)) => if v <= 9223372036854775808u64 {
                Some(((-(v as int)) as i64, j))
            } else {
                None
            },
            None => None,
        }
    } else {
        match spec_parse_u64(s, i) {
            Some((v, j)) => if v <= i64::MAX as u64 {
                Some((v as i64, j))
            } else {
                None
            },
            None => None,
        }
    }
}

/// The `,"value":` introduction shared by most parameter kinds; the result
/// is the position of the value itself.
pub open spec fn spec_value_intro(s: Seq<char>, i: int) -> Option<int> {
    match spec_tok(s, i, ","@) {
        None => None,
        Some(a) => match spec_tok(s, a, "\"value\""@) {
            None => None,
            Some(b) => match spec_tok(s, b, ":"@) {
                None => None,
                Some(c) => Some(spec_ws(s, c)),
            },
        },
    }
}

/// The comma-separated JSON strings up to and including the closing
/// bracket; `fuel` bounds the recursion and is spent one unit per item.
pub open spec fn spec_parse_string_items(s: Seq<char>, i: int, fuel: nat) -> Option<
    (Seq<Seq<char>>, int),
>
    decreases fuel,
{
    if fuel == 0 {
        None
    } else {
        match spec_parse_string(s, spec_ws(s, i)) {
            None => None,
            Some((x, j)) => {
                let k = spec_ws(s, j);
                if 0 <= k < s.len() && s[k] == ',' {
                    match spec_parse_string_items(s, k + 1, (fuel - 1) as nat) {
                        Some((rest, e)) => Some((seq![x] + rest, e)),
                        None => None,
                    }
                } else if 0 <= k < s.len() && s[k] == ']' {
                    Some((seq![x], k + 1))
                } else {
                    None
                }
            },
        }
    }
}

/// A JSON array of strings: bracket, items, bracket.
pub open spec fn spec_parse_string_array(s: Seq<char>, i: int) -> Option<(Seq<Seq<char>>, int)> {
    match spec_tok(s, i, "["@) {
        None => None,
        Some(a) => {
            let b = spec_ws(s, a);
            if 0 <= b < s.len() && s[b] == ']' {
                Some((Seq::empty(), b + 1))
            } else {
                spec_parse_string_items(s, b, s.len())
            }
        },
    }
}

/// The comma-separated integers up to and including the closing bracket.
pub open spec fn spec_parse_int_items(s: Seq<char>, i: int, fuel: nat) -> Option<(Seq<i64>, int)>
    decreases fuel,
{
    if fuel == 0 {
        None
    } else {
        match spec_parse_i64(s, spec_ws(s, i)) {
            None => None,
            Some((x, j)) => {
                let k = spec_ws(s, j);
                if 0 <= k < s.len() && s[k] == ',' {
                    match spec_parse_int_items(s, k + 1, (fuel - 1) as nat) {
                        Some((rest, e)) => Some((seq![x] + rest, e)),
                        None => None,
                    }
                } else if 0 <= k < s.len() && s[k] == ']' {
                    Some((seq![x], k + 1))
                } else {
                    None
                }
            },
        }
    }
}

/// A JSON array of integers: bracket, items, bracket.
pub open spec fn spec_parse_int_array(s: Seq<char>, i: int) -> Option<(Seq<i64>, int)> {
    match spec_tok(s, i, "["@) {
        None => None,
        Some(a) => {
            let b = spec_ws(s, a);
            if 0 <= b < s.len() && s[b] == ']' {
                Some((Seq::empty(), b + 1))
            } else {
                spec_parse_int_items(s, b, s.len())
            }
        },
    }
}

/// The `{"paths":[...]}` object of a requirements value.
pub open spec fn spec_parse_requirements_value(s: Seq<char>, i: int) -> Option<
    (Seq<Seq<char>>, int),
> {
    match spec_tok(s, i, "{"@) {
        None => None,
        Some(a) => match spec_tok(s, a, "\"paths\""@) {
            None => None,
            Some(b) => match spec_tok(s, b, ":"@) {
                None => None,
                Some(c) => match spec_parse_string_array(s, c) {
                    None => None,
                    Some((xs, d)) => match spec_tok(s, d, "}"@) {
                        None => None,
                        Some(e) => Some((xs, e)),
                    },
                },
            },
        },
    }
}

/// The value and closing brace of a parameter whose identifier and type
/// name are already read.
pub open spec fn spec_parse_parameter_value(
    s: Seq<char>,
    i: int,
    id: Seq<char>,
    ty: Seq<char>,
) -> Option<(ParameterView, int)> {
    if ty == "string"@ {
        match spec_value_intro(s, i) {
            None => None,
            Some(v) => match spec_parse_string(s, v) {
                None => None,
                Some((x, j)) => match spec_tok(s, j, "}"@) {
                    None => None,
                    Some(e) => Some(
                        (ParameterView { id, value: ParameterValueView::StringValue(x) }, e),
                    ),
                },
            },
        }
    } else if ty == "integer"@ {
        match spec_value_intro(s, i) {
            None => None,
            Some(v) => match spec_parse_i64(s, v) {
                None => None,
                Some((x, j)) => match spec_tok(s, j, "}"@) {
                    None => None,
                    Some(e) => Some(
                        (ParameterView { id, value: ParameterValueView::IntegerValue(x) }, e),
                    ),
                },
            },
        }
    } else if ty == "boolean"@ {
        match spec_value_intro(s, i) {
            None => None,
            Some(v) => {
                let parsed: Option<(bool, int)> = match spec_expect(s, v, "true"@) {
                    Some(j) => Some((true, j)),
                    None => match spec_expect(s, v, "false"@) {
                        Some(j) => Some((false, j)),
                        None => None,
                    },
                };
                match parsed {
                    None => None,
                    Some((x, j)) => match spec_tok(s, j, "}"@) {
                        None => None,
                        Some(e) => Some(
                            (ParameterView { id, value: ParameterValueView::BooleanValue(x) }, e),
                        ),
                    },
                }
            },
        }
    } else if ty == "array_of_strings"@ {
        match spec_value_intro(s, i) {
            None => None,
            Some(v) => match spec_parse_string_array(s, v) {
                None => None,
                Some((xs, j)) => match spec_tok(s, j, "}"@) {
                    None => None,
                    Some(e) => Some(
                        (ParameterView { id, value: ParameterValueView::ArrayOfStrings(xs) }, e),
                    ),
                },
            },
        }
    } else if ty == "array_of_integers"@ {
        match spec_value_intro(s, i) {
            None => None,
            Some(v) => match spec_parse_int_array(s, v) {
                None => None,
                Some((xs, j)) => match spec_tok(s, j, "}"@) {
                    None => None,
                    Some(e) => Some(
                        (ParameterView { id, value: ParameterValueView::ArrayOfIntegers(xs) }, e),
                    ),
                },
            },
        }
    } else if ty == "credential"@ {
        match spec_tok(s, i, ","@) {
            None => None,
            Some(a) => match spec_tok(s, a, "\"store\""@) {
                None => None,
                Some(b) => match spec_tok(s, b, ":"@) {
                    None => None,
                    Some(c) => match spec_parse_string(s, spec_ws(s, c)) {
                        None => None,
                        Some((store, d)) => match spec_value_intro(s, d) {
                            None => None,
                            Some(v) => match spec_parse_string(s, v) {
                                None => None,
                                Some((key, j)) => match spec_tok(s, j, "}"@) {
                                    None => None,
                                    Some(e) => Some(
                                        (
                                            ParameterView {
                                                id,
                                                value: ParameterValueView::CredentialValue(
                                                    store,
                                                    key,
                                                ),
                                            },
                                            e,
                                        ),
                                    ),
                                },
                            },
                        },
                    },
                },
            },
        }
    } else if ty == "requirements"@ {
        match spec_value_intro(s, i) {
            None => None,
            Some(v) => match spec_parse_requirements_value(s, v) {
                None => None,
                Some((xs, j)) => match spec_tok(s, j, "}"@) {
                    None => None,
                    Some(e) => Some(
                        (ParameterView { id, value: ParameterValueView::Requirements(xs) }, e),
                    ),
                },
            },
        }
    } else {
        None
    }
}

/// One parameter object.
pub open spec fn spec_parse_parameter(s: Seq<char>, i: int) -> Option<(ParameterView, int)> {
    match spec_tok(s, i, "{"@) {
        None => None,
        Some(a) => match spec_tok(s, a, "\"id\""@) {
            None => None,
            Some(b) => match spec_tok(s, b, ":"@) {
                None => None,
                Some(c) => match spec_parse_string(s, spec_ws(s, c)) {
                    None => None,
                    Some((id, d)) => match spec_tok(s, d, ","@) {
                        None => None,
                        Some(e) => match spec_tok(s, e, "\"type\""@) {
                            None => None,
                            Some(f) => match spec_tok(s, f, ":"@) {
                                None => None,
                                Some(g) => match spec_parse_string(s, spec_ws(s, g)) {
                                    None => None,
                                    Some((ty, h)) => spec_parse_parameter_value(s, h, id, ty),
                                },
                            },
                        },
                    },
                },
            },
        },
    }
}

/// The comma-separated parameter objects up to and including the closing
/// bracket.
pub open spec fn spec_parse_parameter_items(s: Seq<char>, i: int, fuel: nat) -> Option<
    (Seq<ParameterView>, int),
>
    decreases fuel,
{
    if fuel == 0 {
        None
    } else {
        match spec_parse_parameter(s, i) {
            None => None,
            Some((p, j)) => {
                let k = spec_ws(s, j);
                if 0 <= k < s.len() && s[k] == ',' {
                    match spec_parse_parameter_items(s, k + 1, (fuel - 1) as nat) {
                        Some((rest, e)) => Some((seq![p] + rest, e)),
                        None => None,
                    }
                } else if 0 <= k < s.len() && s[k] == ']' {
                    Some((seq![p], k + 1))
                } else {
                    None
                }
            },
        }
    }
}

/// The parameter list of an order document.
pub open spec fn spec_parse_parameters(s: Seq<char>, i: int) -> Option<(Seq<ParameterView>, int)> {
    match spec_tok(s, i, "["@) {
        None => None,
        Some(a) => {
            let b = spec_ws(s, a);
            if 0 <= b < s.len() && s[b] == ']' {
                Some((Seq::empty(), b + 1))
            } else {
                spec_parse_parameter_items(s, b, s.len())
            }
        },
    }
}

/// A whole order document: `{"job_id":N,"parameters":[...]}` with optional
/// whitespace between tokens, fields in this order, and nothing but
/// whitespace after the closing brace.
pub open spec fn spec_parse_job(s: Seq<char>) -> Option<JobView> {
    match spec_tok(s, 0, "{"@) {
        None => None,
        Some(a) => match spec_tok(s, a, "\"job_id\""@) {
            None => None,
            Some(b) => match spec_tok(s, b, ":"@) {
                None => None,
                Some(c) => match spec_parse_u64(s, spec_ws(s, c)) {
                    None => None,
                    Some((id, d)) => match spec_tok(s, d, ","@) {
                        None => None,
                        Some(e) => match spec_tok(s, e, "\"parameters\""@) {
                            None => None,
                            Some(f) => match spec_tok(s, f, ":"@) {
                                None => None,
                                Some(g) => match spec_parse_parameters(s, spec_ws(s, g)) {
                                    None => None,
                                    Some((ps, h)) => match spec_tok(s, h, "}"@) {
                                        None => None,
                                        Some(e2) => if spec_ws(s, e2) == s.len() {
                                            Some(JobView { job_id: id, parameters: ps })
                                        } else {
                                            None
                                        },
                                    },
                                },
                            },
                        },
                    },
                },
            },
        },
    }
}

/// Reads a literal after optional whitespace.
fn tok(s: &Vec<char>, i: usize, lit: &str) -> (r: Option<usize>)
    requires
        i <= s@.len(),
    ensures
        match r {
            Some(j) => spec_tok(s@, i as int, lit@) == Some(j as int) && i <= j <= s@.len(),
            None => spec_tok(s@, i as int, lit@) is None,
        },
{
    let a = skip_ws(s, i);
    expect_lit(s, a, lit)
}

/// Reads a decimal integer at `i`, an optional minus sign first.
fn parse_i64_at(s: &Vec<char>, i: usize) -> (r: Option<(i64, usize)>)
    requires
        i <= s@.len(),
    ensures
        match r {
            Some(p) => spec_parse_i64(s@, i as int) == Some((p.0, p.1 as int)) && i <= p.1
                <= s@.len(),
            None => spec_parse_i64(s@, i as int) is None,
        },
{
    if i < s.len() && s[i] == '-' {
        match parse_u64_at(s, i + 1) {
            Some((v, j)) => {
                if v <= 9223372036854775808u64 {
                    let x: i64 = if v == 9223372036854775808u64 {
                        (-9223372036854775807i64) - 1
                    } else {
                        -(v as i64)
                    };
                    Some((x, j))
                } else {
                    None
                }
            },
            None => None,
        }
    } else {
        match parse_u64_at(s, i) {
            Some((v, j)) => {
                if v <= 9223372036854775807u64 {
                    Some((v as i64, j))
                } else {
                    None
                }
            },
            None => None,
        }
    }
}

/// Reads the `,"value":` introduction.
fn value_intro(s: &Vec<char>, i: usize) -> (r: Option<usize>)
    requires
        i <= s@.len(),
    ensures
        match r {
            Some(j) => spec_value_intro(s@, i as int) == Some(j as int) && i <= j <= s@.len(),
            None => spec_value_intro(s@, i as int) is None,
        },
{
    match tok(s, i, ",") {
        None => None,
        Some(a) => match tok(s, a, "\"value\"") {
            None => None,
            Some(b) => match tok(s, b, ":") {
                None => None,
                Some(c) => Some(skip_ws(s, c)),
            },
        },
    }
}

/// Whether the characters of `v` are exactly those of `lit`.
fn chars_eq_lit(v: &Vec<char>, lit: &str) -> (r: bool)
    ensures
        r == (v@ == lit@),
{
    let m = lit.unicode_len();
    if v.len() != m {
        proof {
            if v@ == lit@ {
                assert(v@.len() == lit@.len());
            }
        }
        return false;
    }
    let mut k: usize = 0;
    while k < m
        invariant
            m == lit@.len(),
            m == v@.len(),
            k <= m,
            forall|t: int| 0 <= t < k ==> v@[t] == lit@[t],
        decreases m - k,
    {
        if v[k] != lit.get_char(k) {
            proof {
                assert(v@[k as int] != lit@[k as int]);
            }
            return false;
        }
        k = k + 1;
    }
    proof {
        assert(v@ =~= lit@);
    }
    true
}

/// Reads the comma-separated JSON strings up to and including the closing
/// bracket.
fn parse_string_items(s: &Vec<char>, i: usize, fuel: usize) -> (r: Option<(Vec<String>, usize)>)
    requires
        i <= s@.len(),
    ensures
        match r {
            Some(p) => spec_parse_string_items(s@, i as int, fuel as nat) == Some(
                (p.0@.map_values(|x: String| x@), p.1 as int),
            ) && p.1 <= s@.len(),
            None => spec_parse_string_items(s@, i as int, fuel as nat) is None,
        },
    decreases fuel,
{
    if fuel == 0 {
        return None;
    }
    let a = skip_ws(s, i);
    match parse_string_at(s, a) {
        None => None,
        Some((x, j)) => {
            let k = skip_ws(s, j);
            if k < s.len() && s[k] == ',' {
                match parse_string_items(s, k + 1, fuel - 1) {
                    Some((rest, e)) => {
                        let mut rest = rest;
                        let ghost tail = rest@;
                        rest.insert(0, chars_to_string(&x));
                        proof {
                            assert(rest@.map_values(|y: String| y@) =~= seq![x@]
                                + tail.map_values(|y: String| y@));
                        }
                        Some((rest, e))
                    },
                    None => None,
                }
            } else if k < s.len() && s[k] == ']' {
                let mut v: Vec<String> = Vec::new();
                v.push(chars_to_string(&x));
                proof {
                    assert(v@.map_values(|y: String| y@) =~= seq![x@]);
                }
                Some((v, k + 1))
            } else {
                None
            }
        },
    }
}

/// Reads a JSON array of strings.
fn parse_string_array(s: &Vec<char>, i: usize) -> (r: Option<(Vec<String>, usize)>)
    requires
        i <= s@.len(),
    ensures
        match r {
            Some(p) => spec_parse_string_array(s@, i as int) == Some(
                (p.0@.map_values(|x: String| x@), p.1 as int),
            ) && p.1 <= s@.len(),
            None => spec_parse_string_array(s@, i as int) is None,
        },
{
    match tok(s, i, "[") {
        None => None,
        Some(a) => {
            let b = skip_ws(s, a);
            if b < s.len() && s[b] == ']' {
                let v: Vec<String> = Vec::new();
                proof {
                    assert(v@.map_values(|y: String| y@) =~= Seq::<Seq<char>>::empty());
                }
                Some((v, b + 1))
            } else {
                parse_string_items(s, b, s.len())
            }
        },
    }
}

/// Reads the comma-separated integers up to and including the closing
/// bracket.
fn parse_int_items(s: &Vec<char>, i: usize, fuel: usize) -> (r: Option<(Vec<i64>, usize)>)
    requires
        i <= s@.len(),
    ensures
        match r {
            Some(p) => spec_parse_int_items(s@, i as int, fuel as nat) == Some(
                (p.0@, p.1 as int),
            ) && p.1 <= s@.len(),
            None => spec_parse_int_items(s@, i as int, fuel as nat) is None,
        },
    decreases fuel,
{
    if fuel == 0 {
        return None;
    }
    let a = skip_ws(s, i);
    match parse_i64_at(s, a) {
        None => None,
        Some((x, j)) => {
            let k = skip_ws(s, j);
            if k < s.len() && s[k] == ',' {
                match parse_int_items(s, k + 1, fuel - 1) {
                    Some((rest, e)) => {
                        let mut rest = rest;
                        let ghost tail = rest@;
                        rest.insert(0, x);
                        proof {
                            assert(rest@ =~= seq![x] + tail);
                        }
                        Some((rest, e))
                    },
                    None => None,
                }
            } else if k < s.len() && s[k] == ']' {
                let mut v: Vec<i64> = Vec::new();
                v.push(x);
                proof {
                    assert(v@ =~= seq![x]);
                }
                Some((v, k + 1))
            } else {
                None
            }
        },
    }
}

/// Reads a JSON array of integers.
fn parse_int_array(s: &Vec<char>, i: usize) -> (r: Option<(Vec<i64>, usize)>)
    requires
        i <= s@.len(),
    ensures
        match r {
            Some(p) => spec_parse_int_array(s@, i as int) == Some((p.0@, p.1 as int)) && p.1
                <= s@.len(),
            None => spec_parse_int_array(s@, i as int) is None,
        },
{
    match tok(s, i, "[") {
        None => None,
        Some(a) => {
            let b = skip_ws(s, a);
            if b < s.len() && s[b] == ']' {
                let v: Vec<i64> = Vec::new();
                proof {
                    assert(v@ =~= Seq::<i64>::empty());
                }
                Some((v, b + 1))
            } else {
                parse_int_items(s, b, s.len())
            }
        },
    }
}

/// Reads the `{"paths":[...]}` object of a requirements value.
fn parse_requirements_value(s: &Vec<char>, i: usize) -> (r: Option<(Vec<String>, usize)>)
    requires
        i <= s@.len(),
    ensures
        match r {
            Some(p) => spec_parse_requirements_value(s@, i as int) == Some(
                (p.0@.map_values(|x: String| x@), p.1 as int),
            ) && p.1 <= s@.len(),
            None => spec_parse_requirements_value(s@, i as int) is None,
        },
{
    match tok(s, i, "{") {
        None => None,
        Some(a) => match tok(s, a, "\"paths\"") {
            None => None,
            Some(b) => match tok(s, b, ":") {
                None => None,
                Some(c) => match parse_string_array(s, c) {
                    None => None,
                    Some((xs, d)) => match tok(s, d, "}") {
                        None => None,
                        Some(e) => Some((xs, e)),
                    },
                },
            },
        },
    }
}

/// Reads the value and closing brace of a parameter whose identifier and
/// type name are already read.
fn parse_parameter_value(s: &Vec<char>, i: usize, id: Vec<char>, ty: &Vec<char>) -> (r: Option<
    (Parameter, usize),
>)
    requires
        i <= s@.len(),
    ensures
        match r {
            Some(p) => spec_parse_parameter_value(s@, i as int, id@, ty@) == Some(
                (p.0@, p.1 as int),
            ) && p.1 <= s@.len(),
            None => spec_parse_parameter_value(s@, i as int, id@, ty@) is None,
        },
{
    let id_string = chars_to_string(&id);
    if chars_eq_lit(ty, "string") {
        match value_intro(s, i) {
            None => None,
            Some(v) => match parse_string_at(s, v) {
                None => None,
                Some((x, j)) => match tok(s, j, "}") {
                    None => None,
                    Some(e) => Some(
                        (
                            Parameter {
                                id: id_string,
                                value: ParameterValue::StringValue(chars_to_string(&x)),
                            },
                            e,
                        ),
                    ),
                },
            },
        }
    } else if chars_eq_lit(ty, "integer") {
        match value_intro(s, i) {
            None => None,
            Some(v) => match parse_i64_at(s, v) {
                None => None,
                Some((x, j)) => match tok(s, j, "}") {
                    None => None,
                    Some(e) => Some(
                        (Parameter { id: id_string, value: ParameterValue::IntegerValue(x) }, e),
                    ),
                },
            },
        }
    } else if chars_eq_lit(ty, "boolean") {
        match value_intro(s, i) {
            None => None,
            Some(v) => {
                let parsed: Option<(bool, usize)> = match expect_lit(s, v, "true") {
                    Some(j) => Some((true, j)),
                    None => match expect_lit(s, v, "false") {
                        Some(j) => Some((false, j)),
                        None => None,
                    },
                };
                match parsed {
                    None => None,
                    Some((x, j)) => match tok(s, j, "}") {
                        None => None,
                        Some(e) => Some(
                            (
                                Parameter { id: id_string, value: ParameterValue::BooleanValue(x) },
                                e,
                            ),
                        ),
                    },
                }
            },
        }
    } else if chars_eq_lit(ty, "array_of_strings") {
        match value_intro(s, i) {
            None => None,
            Some(v) => match parse_string_array(s, v) {
                None => None,
                Some((xs, j)) => match tok(s, j, "}") {
                    None => None,
                    Some(e) => Some(
                        (Parameter { id: id_string, value: ParameterValue::ArrayOfStrings(xs) }, e),
                    ),
                },
            },
        }
    } else if chars_eq_lit(ty, "array_of_integers") {
        match value_intro(s, i) {
            None => None,
            Some(v) => match parse_int_array(s, v) {
                None => None,
                Some((xs, j)) => match tok(s, j, "}") {
                    None => None,
                    Some(e) => Some(
                        (
                            Parameter { id: id_string, value: ParameterValue::ArrayOfIntegers(xs) },
                            e,
                        ),
                    ),
                },
            },
        }
    } else if chars_eq_lit(ty, "credential") {
        match tok(s, i, ",") {
            None => None,
            Some(a) => match tok(s, a, "\"store\"") {
                None => None,
                Some(b) => match tok(s, b, ":") {
                    None => None,
                    Some(c) => {
                        let c2 = skip_ws(s, c);
                        match parse_string_at(s, c2) {
                            None => None,
                            Some((store, d)) => match value_intro(s, d) {
                                None => None,
                                Some(v) => match parse_string_at(s, v) {
                                    None => None,
                                    Some((key, j)) => match tok(s, j, "}") {
                                        None => None,
                                        Some(e) => Some(
                                            (
                                                Parameter {
                                                    id: id_string,
                                                    value: ParameterValue::CredentialValue(
                                                        chars_to_string(&store),
                                                        Credential { key: chars_to_string(&key) },
                                                    ),
                                                },
                                                e,
                                            ),
                                        ),
                                    },
                                },
                            },
                        }
                    },
                },
            },
        }
    } else if chars_eq_lit(ty, "requirements") {
        match value_intro(s, i) {
            None => None,
            Some(v) => match parse_requirements_value(s, v) {
                None => None,
                Some((xs, j)) => match tok(s, j, "}") {
                    None => None,
                    Some(e) => Some(
                        (
                            Parameter {
                                id: id_string,
                                value: ParameterValue::Requirements(Requirement { paths: xs }),
                            },
                            e,
                        ),
                    ),
                },
            },
        }
    } else {
        None
    }
}

/// Reads one parameter object.
fn parse_parameter_at(s: &Vec<char>, i: usize) -> (r: Option<(Parameter, usize)>)
    requires
        i <= s@.len(),
    ensures
        match r {
            Some(p) => spec_parse_parameter(s@, i as int) == Some((p.0@, p.1 as int)) && p.1
                <= s@.len(),
            None => spec_parse_parameter(s@, i as int) is None,
        },
{
    match tok(s, i, "{") {
        None => None,
        Some(a) => match tok(s, a, "\"id\"") {
            None => None,
            Some(b) => match tok(s, b, ":") {
                None => None,
                Some(c) => {
                    let c2 = skip_ws(s, c);
                    match parse_string_at(s, c2) {
                        None => None,
                        Some((id, d)) => match tok(s, d, ",") {
                            None => None,
                            Some(e) => match tok(s, e, "\"type\"") {
                                None => None,
                                Some(f) => match tok(s, f, ":") {
                                    None => None,
                                    Some(g) => {
                                        let g2 = skip_ws(s, g);
                                        match parse_string_at(s, g2) {
                                            None => None,
                                            Some((ty, h)) => parse_parameter_value(s, h, id, &ty),
                                        }
                                    },
                                },
                            },
                        },
                    }
                },
            },
        },
    }
}

/// Reads the comma-separated parameter objects up to and including the
/// closing bracket.
fn parse_parameter_items(s: &Vec<char>, i: usize, fuel: usize) -> (r: Option<
    (Vec<Parameter>, usize),
>)
    requires
        i <= s@.len(),
    ensures
        match r {
            Some(p) => spec_parse_parameter_items(s@, i as int, fuel as nat) == Some(
                (p.0@.map_values(|x: Parameter| x@), p.1 as int),
            ) && p.1 <= s@.len(),
            None => spec_parse_parameter_items(s@, i as int, fuel as nat) is None,
        },
    decreases fuel,
{
    if fuel == 0 {
        return None;
    }
    match parse_parameter_at(s, i) {
        None => None,
        Some((p, j)) => {
            let k = skip_ws(s, j);
            if k < s.len() && s[k] == ',' {
                match parse_parameter_items(s, k + 1, fuel - 1) {
                    Some((rest, e)) => {
                        let mut rest = rest;
                        let ghost tail = rest@;
                        let ghost pview = p@;
                        rest.insert(0, p);
                        proof {
                            assert(rest@.map_values(|y: Parameter| y@) =~= seq![pview]
                                + tail.map_values(|y: Parameter| y@));
                        }
                        Some((rest, e))
                    },
                    None => None,
                }
            } else if k < s.len() && s[k] == ']' {
                let ghost pview = p@;
                let mut v: Vec<Parameter> = Vec::new();
                v.push(p);
                proof {
                    assert(v@.map_values(|y: Parameter| y@) =~= seq![pview]);
                }
                Some((v, k + 1))
            } else {
                None
            }
        },
    }
}

/// Reads the parameter list of an order document.
fn parse_parameters_at(s: &Vec<char>, i: usize) -> (r: Option<(Vec<Parameter>, usize)>)
    requires
        i <= s@.len(),
    ensures
        match r {
            Some(p) => spec_parse_parameters(s@, i as int) == Some(
                (p.0@.map_values(|x: Parameter| x@), p.1 as int),
            ) && p.1 <= s@.len(),
            None => spec_parse_parameters(s@, i as int) is None,
        },
{
    match tok(s, i, "[") {
        None => None,
        Some(a) => {
            let b = skip_ws(s, a);
            if b < s.len() && s[b] == ']' {
                let v: Vec<Parameter> = Vec::new();
                proof {
                    assert(v@.map_values(|y: Parameter| y@) =~= Seq::<ParameterView>::empty());
                }
                Some((v, b + 1))
            } else {
                parse_parameter_items(s, b, s.len())
            }
        },
    }
}

/// The characters of `s`.
fn str_chars(s: &str) -> (v: Vec<char>)
    ensures
        v@ == s@,
{
    let mut v: Vec<char> = Vec::new();
    push_str(&mut v, s);
    proof {
        assert(v@ =~= s@);
    }
    v
}

/// Reads a whole order document, or nothing.
fn parse_job_chars(s: &Vec<char>) -> (r: Option<Job>)
    ensures
        match r {
            Some(job) => spec_parse_job(s@) == Some(job@),
            None => spec_parse_job(s@) is None,
        },
{
    match tok(s, 0, "{") {
        None => None,
        Some(a) => match tok(s, a, "\"job_id\"") {
            None => None,
            Some(b) => match tok(s, b, ":") {
                None => None,
                Some(c) => {
                    let c2 = skip_ws(s, c);
                    match parse_u64_at(s, c2) {
                        None => None,
                        Some((id, d)) => match tok(s, d, ",") {
                            None => None,
                            Some(e) => match tok(s, e, "\"parameters\"") {
                                None => None,
                                Some(f) => match tok(s, f, ":") {
                                    None => None,
                                    Some(g) => {
                                        let g2 = skip_ws(s, g);
                                        match parse_parameters_at(s, g2) {
                                            None => None,
                                            Some((ps, h)) => match tok(s, h, "}") {
                                                None => None,
                                                Some(e2) => {
                                                    let tail = skip_ws(s, e2);
                                                    if tail == s.len() {
                                                        Some(Job { job_id: id, parameters: ps })
                                                    } else {
                                                        None
                                                    }
                                                },
                                            },
                                        }
                                    },
                                },
                            },
                        },
                    }
                },
            },
        },
    }
}

impl Job {
    /// Decodes an order document. The accepted documents are exactly those
    /// of the order grammar, a deliberate subset of JSON:
    /// `{"job_id":N,"parameters":[...]}` with optional whitespace between
    /// tokens, members in this fixed order (per parameter: `id`, `type`,
    /// then `store`/`value`), the standard simple string escapes without
    /// the `\u` form, and no unknown members. Anything else is a parse
    /// error.
    pub fn parse(message: &str) -> (r: Result<Job, MessageError>)
        ensures
            match spec_parse_job(message@) {
                Some(jv) => r matches Ok(job) && job@ == jv,
                None => r matches Err(e) && e is ParseError,
            },
    {
        let s = str_chars(message);
        match parse_job_chars(&s) {
            Some(job) => Ok(job),
            None => Err(MessageError::ParseError(String::from_str("malformed order document"))),
        }
    }
}

/// A direct-messaging payload starts with this prefix.
pub open spec fn spec_has_prefix(s: Seq<char>, p: Seq<char>) -> bool {
    p.len() <= s.len() && s.take(p.len() as int) == p
}

/// Classifies a direct-messaging payload into its control order: the
/// literal `stop_worker` asks the worker to stop; a payload prefixed by
/// `stop_process ` carries the order document of the job to stop; any other
/// payload is a status request carrying an order document. A payload whose
/// document part does not parse is a parse error.
pub fn parse_direct_order(message: &str) -> (r: Result<OrderMessage, MessageError>)
    ensures
        message@ == "stop_worker"@ ==> (r matches Ok(o) && o is StopWorker),
        message@ != "stop_worker"@ && spec_has_prefix(message@, "stop_process "@) ==> match spec_parse_job(
            message@.skip("stop_process "@.len() as int),
        ) {
            Some(jv) => (r matches Ok(o) && o matches OrderMessage::StopProcess(j) && j@
                == jv),
            None => (r matches Err(e) && e is ParseError),
        },
        message@ != "stop_worker"@ && !spec_has_prefix(message@, "stop_process "@) ==> match spec_parse_job(
            message@,
        ) {
            Some(jv) => (r matches Ok(o) && o matches OrderMessage::Status(j) && j@ == jv),
            None => r matches Err(e) && e is ParseError,
        },
{
    let s = str_chars(message);
    if chars_eq_lit(&s, "stop_worker") {
        return Ok(OrderMessage::StopWorker);
    }
    match expect_lit(&s, 0, "stop_process ") {
        Some(p) => {
            proof {
                reveal_strlit("stop_process ");
                assert(s@.take("stop_process "@.len() as int) =~= s@.subrange(
                    0,
                    "stop_process "@.len() as int,
                ));
            }
            let rest = copy_range(&s, p, s.len());
            proof {
                assert(rest@ =~= message@.skip("stop_process "@.len() as int));
            }
            match parse_job_chars(&rest) {
                Some(job) => Ok(OrderMessage::StopProcess(job)),
                None => Err(
                    MessageError::ParseError(String::from_str("malformed control document")),
                ),
            }
        },
        None => {
            proof {
                reveal_strlit("stop_process ");
                if spec_has_prefix(message@, "stop_process "@) {
                    assert(s@.subrange(0, "stop_process "@.len() as int) =~= s@.take(
                        "stop_process "@.len() as int,
                    ));
                }
            }
            match parse_job_chars(&s) {
                Some(job) => Ok(OrderMessage::Status(job)),
                None => Err(
                    MessageError::ParseError(String::from_str("malformed control document")),
                ),
            }
        },
    }
}

/// The position after a balanced-brace raw value whose opening brace is
/// already consumed; `depth` counts the braces still open. String contents
/// are not interpreted: a schema carrying braces inside string literals is
/// outside this grammar.
pub open spec fn spec_scan_raw(s: Seq<char>, i: int, depth: int) -> Option<int>
    decreases s.len() - i,
{
    if !(0 <= i < s.len()) {
        None
    } else if s[i] == '{' {
        spec_scan_raw(s, i + 1, depth + 1)
    } else if s[i] == '}' {
        if depth == 1 {
            Some(i + 1)
        } else {
            spec_scan_raw(s, i + 1, depth - 1)
        }
    } else {
        spec_scan_raw(s, i + 1, depth)
    }
}

/// A raw JSON object at `i`, kept as its text.
pub open spec fn spec_parse_raw_value(s: Seq<char>, i: int) -> Option<(Seq<char>, int)> {
    if 0 <= i < s.len() && s[i] == '{' {
        match spec_scan_raw(s, i + 1, 1) {
            Some(j) => Some((s.subrange(i, j), j)),
            None => None,
        }
    } else {
        None
    }
}

/// A quoted `major.minor.patch` version at `i`.
pub open spec fn spec_parse_version(s: Seq<char>, i: int) -> Option<(Version, int)> {
    if 0 <= i < s.len() && s[i] == '"' {
        match spec_parse_u64(s, i + 1) {
            None => None,
            Some((major, a)) => match spec_expect(s, a, "."@) {
                None => None,
                Some(b) => match spec_parse_u64(s, b) {
                    None => None,
                    Some((minor, c)) => match spec_expect(s, c, "."@) {
                        None => None,
                        Some(d) => match spec_parse_u64(s, d) {
                            None => None,
                            Some((patch, e)) => match spec_expect(s, e, "\""@) {
                                None => None,
                                Some(f) => Some((Version { major, minor, patch }, f)),
                            },
                        },
                    },
                },
            },
        }
    } else {
        None
    }
}

/// A whole configuration document, as the discovery mode prints it: the six
/// fields in order, the parameter schema kept as raw text, nothing but
/// whitespace after the closing brace. The two description fields do not
/// travel and come back empty.
pub open spec fn spec_parse_config(s: Seq<char>) -> Option<WorkerConfigurationView> {
    match spec_tok(s, 0, "{"@) {
        None => None,
        Some(a) => match spec_tok(s, a, "\"queue\""@) {
            None => None,
            Some(b) => match spec_tok(s, b, ":"@) {
                None => None,
                Some(c) => match spec_parse_string(s, spec_ws(s, c)) {
                    None => None,
                    Some((queue, d)) => spec_parse_config_mid(s, d, queue),
                },
            },
        },
    }
}

/// The worker name and version fields of a configuration document.
pub open spec fn spec_parse_config_mid(s: Seq<char>, i: int, queue: Seq<char>) -> Option<
    WorkerConfigurationView,
> {
    match spec_tok(s, i, ","@) {
        None => None,
        Some(e) => match spec_tok(s, e, "\"worker_name\""@) {
            None => None,
            Some(f) => match spec_tok(s, f, ":"@) {
                None => None,
                Some(g) => match spec_parse_string(s, spec_ws(s, g)) {
                    None => None,
                    Some((name, h)) => spec_parse_config_ver(s, h, queue, name),
                },
            },
        },
    }
}

/// The worker version field of a configuration document.
pub open spec fn spec_parse_config_ver(
    s: Seq<char>,
    i: int,
    queue: Seq<char>,
    name: Seq<char>,
) -> Option<WorkerConfigurationView> {
    match spec_tok(s, i, ","@) {
        None => None,
        Some(i1) => match spec_tok(s, i1, "\"worker_version\""@) {
            None => None,
            Some(i2) => match spec_tok(s, i2, ":"@) {
                None => None,
                Some(i3) => match spec_parse_version(s, spec_ws(s, i3)) {
                    None => None,
                    Some((wv, i4)) => spec_parse_config_tail(s, i4, queue, name, wv),
                },
            },
        },
    }
}

/// The sdk version, instance identifier and schema fields of a
/// configuration document.
pub open spec fn spec_parse_config_tail(
    s: Seq<char>,
    i: int,
    queue: Seq<char>,
    name: Seq<char>,
    wv: Version,
) -> Option<WorkerConfigurationView> {
    match spec_tok(s, i, ","@) {
        None => None,
        Some(a) => match spec_tok(s, a, "\"sdk_version\""@) {
            None => None,
            Some(b) => match spec_tok(s, b, ":"@) {
                None => None,
                Some(c) => match spec_parse_version(s, spec_ws(s, c)) {
                    None => None,
                    Some((sv, d)) => match spec_tok(s, d, ","@) {
                        None => None,
                        Some(e) => match spec_tok(s, e, "\"instance_id\""@) {
                            None => None,
                            Some(f) => match spec_tok(s, f, ":"@) {
                                None => None,
                                Some(g) => match spec_parse_string(s, spec_ws(s, g)) {
                                    None => None,
                                    Some((iid, h)) => match spec_tok(s, h, ","@) {
                                        None => None,
                                        Some(i1) => match spec_tok(s, i1, "\"parameters\""@) {
                                            None => None,
                                            Some(i2) => match spec_tok(s, i2, ":"@) {
                                                None => None,
                                                Some(i3) => match spec_parse_raw_value(
                                                    s,
                                                    spec_ws(s, i3),
                                                ) {
                                                    None => None,
                                                    Some((schema, i4)) => match spec_tok(
                                                        s,
                                                        i4,
                                                        "}"@,
                                                    ) {
                                                        None => None,
                                                        Some(i5) => if spec_ws(s, i5) == s.len() {
                                                            Some(
                                                                WorkerConfigurationView {
                                                                    queue,
                                                                    worker_name: name,
                                                                    short_description: Seq::empty(),
                                                                    description: Seq::empty(),
                                                                    worker_version: wv,
                                                                    sdk_version: sv,
                                                                    instance_id: iid,
                                                                    parameter_schema: schema,
                                                                },
                                                            )
                                                        } else {
                                                            None
                                                        },
                                                    },
                                                },
                                            },
                                        },
                                    },
                                },
                            },
                        },
                    },
                },
            },
        },
    }
}

/// Reads past a balanced-brace raw value, the opening brace already
/// consumed.
fn scan_raw(s: &Vec<char>, i: usize, depth: usize) -> (r: Option<usize>)
    requires
        i <= s@.len(),
        1 <= depth,
        depth <= i,
    ensures
        match r {
            Some(j) => spec_scan_raw(s@, i as int, depth as int) == Some(j as int) && i < j
                <= s@.len(),
            None => spec_scan_raw(s@, i as int, depth as int) is None,
        },
    decreases s@.len() - i,
{
    if i >= s.len() {
        None
    } else if s[i] == '{' {
        scan_raw(s, i + 1, depth + 1)
    } else if s[i] == '}' {
        if depth == 1 {
            Some(i + 1)
        } else {
            scan_raw(s, i + 1, depth - 1)
        }
    } else {
        scan_raw(s, i + 1, depth)
    }
}

/// Copies the characters of `s` between `a` and `b`.
fn copy_range(s: &Vec<char>, a: usize, b: usize) -> (v: Vec<char>)
    requires
        a <= b <= s@.len(),
    ensures
        v@ == s@.subrange(a as int, b as int),
{
    let mut v: Vec<char> = Vec::new();
    let mut k = a;
    while k < b
        invariant
            a <= k <= b <= s@.len(),
            v@ == s@.subrange(a as int, k as int),
        decreases b - k,
    {
        v.push(s[k]);
        proof {
            assert(v@ =~= s@.subrange(a as int, k + 1));
        }
        k = k + 1;
    }
    v
}

/// Reads a raw JSON object at `i`, kept as its text.
fn parse_raw_value(s: &Vec<char>, i: usize) -> (r: Option<(Vec<char>, usize)>)
    requires
        i <= s@.len(),
    ensures
        match r {
            Some(p) => spec_parse_raw_value(s@, i as int) == Some((p.0@, p.1 as int)) && p.1
                <= s@.len(),
            None => spec_parse_raw_value(s@, i as int) is None,
        },
{
    if i < s.len() && s[i] == '{' {
        match scan_raw(s, i + 1, 1) {
            Some(j) => Some((copy_range(s, i, j), j)),
            None => None,
        }
    } else {
        None
    }
}

/// Reads a quoted `major.minor.patch` version at `i`.
fn parse_version_at(s: &Vec<char>, i: usize) -> (r: Option<(Version, usize)>)
    requires
        i <= s@.len(),
    ensures
        match r {
            Some(p) => spec_parse_version(s@, i as int) == Some((p.0, p.1 as int)) && p.1
                <= s@.len(),
            None => spec_parse_version(s@, i as int) is None,
        },
{
    if i < s.len() && s[i] == '"' {
        match parse_u64_at(s, i + 1) {
            None => None,
            Some((major, a)) => match expect_lit(s, a, ".") {
                None => None,
                Some(b) => match parse_u64_at(s, b) {
                    None => None,
                    Some((minor, c)) => match expect_lit(s, c, ".") {
                        None => None,
                        Some(d) => match parse_u64_at(s, d) {
                            None => None,
                            Some((patch, e)) => match expect_lit(s, e, "\"") {
                                None => None,
                                Some(f) => Some((Version { major, minor, patch }, f)),
                            },
                        },
                    },
                },
            },
        }
    } else {
        None
    }
}

/// Decodes a configuration document, as printed by the discovery mode; the
/// description fields do not travel and come back empty.
pub fn parse_worker_configuration(message: &str) -> (r: Result<WorkerConfiguration, MessageError>)
    ensures
        match spec_parse_config(message@) {
            Some(cv) => r matches Ok(c) && c@ == cv,
            None => r matches Err(e) && e is ParseError,
        },
{
    let s = str_chars(message);
    let head = parse_config_head(&s);
    match head {
        None => Err(MessageError::ParseError(String::from_str("malformed configuration"))),
        Some(c) => Ok(c),
    }
}

/// Reads a whole configuration document, or nothing.
fn parse_config_head(s: &Vec<char>) -> (r: Option<WorkerConfiguration>)
    ensures
        match r {
            Some(c) => spec_parse_config(s@) == Some(c@),
            None => spec_parse_config(s@) is None,
        },
{
    match tok(s, 0, "{") {
        None => None,
        Some(a) => match tok(s, a, "\"queue\"") {
            None => None,
            Some(b) => match tok(s, b, ":") {
                None => None,
                Some(c) => {
                    let c2 = skip_ws(s, c);
                    match parse_string_at(s, c2) {
                        None => None,
                        Some((queue, d)) => parse_config_mid(s, d, queue),
                    }
                },
            },
        },
    }
}

/// Reads the worker name and version fields.
fn parse_config_mid(s: &Vec<char>, i: usize, queue: Vec<char>) -> (r: Option<WorkerConfiguration>)
    requires
        i <= s@.len(),
    ensures
        match r {
            Some(c) => spec_parse_config_mid(s@, i as int, queue@) == Some(c@),
            None => spec_parse_config_mid(s@, i as int, queue@) is None,
        },
{
    match tok(s, i, ",") {
        None => None,
        Some(e) => match tok(s, e, "\"worker_name\"") {
            None => None,
            Some(f) => match tok(s, f, ":") {
                None => None,
                Some(g) => {
                    let g2 = skip_ws(s, g);
                    match parse_string_at(s, g2) {
                        None => None,
                        Some((name, h)) => parse_config_ver(s, h, queue, name),
                    }
                },
            },
        },
    }
}

/// Reads the worker version field.
fn parse_config_ver(s: &Vec<char>, i: usize, queue: Vec<char>, name: Vec<char>) -> (r: Option<
    WorkerConfiguration,
>)
    requires
        i <= s@.len(),
    ensures
        match r {
            Some(c) => spec_parse_config_ver(s@, i as int, queue@, name@) == Some(c@),
            None => spec_parse_config_ver(s@, i as int, queue@, name@) is None,
        },
{
    match tok(s, i, ",") {
        None => None,
        Some(i1) => match tok(s, i1, "\"worker_version\"") {
            None => None,
            Some(i2) => match tok(s, i2, ":") {
                None => None,
                Some(i3) => {
                    let i3b = skip_ws(s, i3);
                    match parse_version_at(s, i3b) {
                        None => None,
                        Some((wv, i4)) => parse_config_tail(s, i4, queue, name, wv),
                    }
                },
            },
        },
    }
}

/// Reads the sdk version, instance identifier and schema fields.
fn parse_config_tail(s: &Vec<char>, i: usize, queue: Vec<char>, name: Vec<char>, wv: Version) -> (r:
    Option<WorkerConfiguration>)
    requires
        i <= s@.len(),
    ensures
        match r {
            Some(c) => spec_parse_config_tail(s@, i as int, queue@, name@, wv) == Some(c@),
            None => spec_parse_config_tail(s@, i as int, queue@, name@, wv) is None,
        },
{
    match tok(s, i, ",") {
        None => None,
        Some(a) => match tok(s, a, "\"sdk_version\"") {
            None => None,
            Some(b) => match tok(s, b, ":") {
                None => None,
                Some(c) => {
                    let c2 = skip_ws(s, c);
                    match parse_version_at(s, c2) {
                        None => None,
                        Some((sv, d)) => match tok(s, d, ",") {
                            None => None,
                            Some(e) => match tok(s, e, "\"instance_id\"") {
                                None => None,
                                Some(f) => match tok(s, f, ":") {
                                    None => None,
                                    Some(g) => {
                                        let g2 = skip_ws(s, g);
                                        match parse_string_at(s, g2) {
                                            None => None,
                                            Some((iid, h)) => match tok(s, h, ",") {
                                                None => None,
                                                Some(i1) => match tok(s, i1, "\"parameters\"") {
                                                    None => None,
                                                    Some(i2) => match tok(s, i2, ":") {
                                                        None => None,
                                                        Some(i3) => {
                                                            let i3b = skip_ws(s, i3);
                                                            match parse_raw_value(s, i3b) {
                                                                None => None,
                                                                Some((schema, i4)) => match tok(
                                                                    s,
                                                                    i4,
                                                                    "}",
                                                                ) {
                                                                    None => None,
                                                                    Some(i5) => {
                                                                        let tail = skip_ws(s, i5);
                                                                        if tail == s.len() {
                                                                            Some(
                                                                                WorkerConfiguration {
                                                                                    queue:
                                                                                        chars_to_string(
                                                                                        &queue,
                                                                                    ),
                                                                                    worker_name:
                                                                                        chars_to_string(
                                                                                        &name,
                                                                                    ),
                                                                                    short_description:
                                                                                        String::new(),
                                                                                    description:
                                                                                        String::new(),
                                                                                    worker_version:
                                                                                        wv,
                                                                                    sdk_version: sv,
                                                                                    instance_id:
                                                                                        chars_to_string(
                                                                                        &iid,
                                                                                    ),
                                                                                    parameter_schema:
                                                                                        chars_to_string(
                                                                                        &schema,
                                                                                    ),
                                                                                },
                                                                            )
                                                                        } else {
                                                                            None
                                                                        }
                                                                    },
                                                                },
                                                            }
                                                        },
                                                    },
                                                },
                                            },
                                        }
                                    },
                                },
                            },
                        },
                    }
                },
            },
        },
    }
}

/// Text that travels through a JSON string unchanged: free of quotes,
/// backslashes and escaped control characters.
pub open spec fn text_wf(s: Seq<char>) -> bool {
    forall|k: int|
        0 <= k < s.len() ==> s[k] != '"' && s[k] != '\\' && s[k] != '\n' && s[k] != '\t'
            && s[k] != '\r'
}

/// A parameter schema this grammar round-trips: one object without nested
/// braces.
pub open spec fn schema_wf(s: Seq<char>) -> bool {
    &&& s.len() >= 2
    &&& s[0] == '{'
    &&& s[s.len() - 1] == '}'
    &&& forall|k: int| 0 < k < s.len() - 1 ==> s[k] != '{' && s[k] != '}'
}

/// A configuration whose printed form decodes again: names and identifiers
/// are escape-free and the schema is one flat object.
pub open spec fn config_wf(c: WorkerConfigurationView) -> bool {
    &&& text_wf(c.queue)
    &&& text_wf(c.worker_name)
    &&& text_wf(c.instance_id)
    &&& schema_wf(c.parameter_schema)
}

proof fn lemma_skip_step(s: Seq<char>, i: int, a: Seq<char>, b: Seq<char>)
    requires
        0 <= i <= s.len(),
        s.skip(i) == a + b,
    ensures
        i + a.len() + b.len() == s.len(),
        s.skip(i + a.len() as int) == b,
        a.len() > 0 ==> s[i] == a[0],
{
    assert(s.skip(i).len() == s.len() - i);
    assert forall|k: int| 0 <= k < b.len() implies s.skip(i + a.len() as int)[k] == b[k] by {
        assert(s.skip(i)[a.len() + k] == s[i + a.len() + k]);
        assert(s.skip(i + a.len() as int)[k] == s[i + a.len() + k]);
        assert((a + b)[a.len() + k] == b[k]);
    }
    assert(s.skip(i + a.len() as int) =~= b);
    if a.len() > 0 {
        assert(s.skip(i)[0] == s[i]);
        assert((a + b)[0] == a[0]);
    }
}

proof fn lemma_expect_prefix(s: Seq<char>, i: int, lit: Seq<char>, rest: Seq<char>)
    requires
        0 <= i <= s.len(),
        s.skip(i) == lit + rest,
    ensures
        spec_expect(s, i, lit) == Some(i + lit.len() as int),
{
    lemma_skip_step(s, i, lit, rest);
    assert forall|k: int| 0 <= k < lit.len() implies s.subrange(i, i + lit.len() as int)[k]
        == lit[k] by {
        assert(s.skip(i)[k] == s[i + k]);
        assert((lit + rest)[k] == lit[k]);
        assert(s.subrange(i, i + lit.len() as int)[k] == s[i + k]);
    }
    assert(s.subrange(i, i + lit.len() as int) =~= lit);
}

proof fn lemma_tok_prefix(s: Seq<char>, i: int, lit: Seq<char>, rest: Seq<char>)
    requires
        0 <= i <= s.len(),
        s.skip(i) == lit + rest,
        lit.len() > 0,
        !spec_is_ws(lit[0]),
    ensures
        spec_tok(s, i, lit) == Some(i + lit.len() as int),
{
    lemma_skip_step(s, i, lit, rest);
    assert(spec_ws(s, i) == i);
    lemma_expect_prefix(s, i, lit, rest);
}

proof fn lemma_escape_id(t: Seq<char>)
    requires
        text_wf(t),
    ensures
        spec_escape(t) == t,
    decreases t.len(),
{
    if t.len() == 0 {
        assert(spec_escape(t) =~= t);
    } else {
        assert(forall|k: int| 0 <= k < t.skip(1).len() ==> #[trigger] t.skip(1)[k] == t[k + 1]);
        lemma_escape_id(t.skip(1));
        assert(spec_escape(t) =~= seq![t[0]] + t.skip(1));
        assert(seq![t[0]] + t.skip(1) =~= t);
    }
}

proof fn lemma_scan_string_embed(s: Seq<char>, i: int, content: Seq<char>, rest: Seq<char>)
    requires
        0 <= i <= s.len(),
        s.skip(i) == content + (seq!['"'] + rest),
        text_wf(content),
    ensures
        spec_scan_string(s, i) == Some((content, i + content.len() + 1)),
    decreases content.len(),
{
    if content.len() == 0 {
        assert(content + (seq!['"'] + rest) =~= seq!['"'] + rest);
        lemma_skip_step(s, i, seq!['"'], rest);
        assert(spec_scan_string(s, i) == Some((Seq::<char>::empty(), i + 1)));
        assert(content =~= Seq::<char>::empty());
    } else {
        assert(content =~= seq![content[0]] + content.skip(1));
        assert(content + (seq!['"'] + rest) =~= seq![content[0]] + (content.skip(1) + (seq!['"']
            + rest)));
        lemma_skip_step(s, i, seq![content[0]], content.skip(1) + (seq!['"'] + rest));
        assert(s[i] == content[0]);
        assert(s[i] != '"' && s[i] != '\\');
        assert(forall|k: int|
            0 <= k < content.skip(1).len() ==> #[trigger] content.skip(1)[k] == content[k + 1]);
        lemma_scan_string_embed(s, i + 1, content.skip(1), rest);
        assert(seq![content[0]] + content.skip(1) =~= content);
    }
}

proof fn lemma_parse_string_prefix(s: Seq<char>, i: int, t: Seq<char>, rest: Seq<char>)
    requires
        0 <= i <= s.len(),
        s.skip(i) == spec_json_string(t) + rest,
        text_wf(t),
    ensures
        spec_parse_string(s, i) == Some((t, i + t.len() + 2)),
{
    lemma_escape_id(t);
    assert(spec_json_string(t) + rest =~= seq!['"'] + (t + (seq!['"'] + rest)));
    lemma_skip_step(s, i, seq!['"'], t + (seq!['"'] + rest));
    lemma_scan_string_embed(s, i + 1, t, rest);
}

/// The value of a digit run read from the front onto `acc`.
spec fn digits_front_val(d: Seq<char>, acc: int) -> int
    decreases d.len(),
{
    if d.len() == 0 {
        acc
    } else {
        digits_front_val(d.skip(1), acc * 10 + spec_digit_val(d[0]))
    }
}

proof fn lemma_digits_front_val_snoc(d: Seq<char>, c: char, acc: int)
    ensures
        digits_front_val(d.push(c), acc) == digits_front_val(d, acc) * 10 + spec_digit_val(c),
    decreases d.len(),
{
    if d.len() == 0 {
        assert(d.push(c).len() == 1);
        assert(d.push(c)[0] == c);
        assert(d.push(c).skip(1) =~= Seq::<char>::empty());
        assert(digits_front_val(d.push(c), acc) == digits_front_val(
            Seq::<char>::empty(),
            acc * 10 + spec_digit_val(c),
        ));
        assert(digits_front_val(Seq::<char>::empty(), acc * 10 + spec_digit_val(c)) == acc * 10
            + spec_digit_val(c));
        assert(digits_front_val(d, acc) == acc);
    } else {
        assert(d.push(c).len() == d.len() + 1);
        assert(d.push(c)[0] == d[0]);
        assert(d.push(c).skip(1) =~= d.skip(1).push(c));
        lemma_digits_front_val_snoc(d.skip(1), c, acc * 10 + spec_digit_val(d[0]));
        assert(digits_front_val(d.push(c), acc) == digits_front_val(
            d.skip(1).push(c),
            acc * 10 + spec_digit_val(d[0]),
        ));
        assert(digits_front_val(d, acc) == digits_front_val(
            d.skip(1),
            acc * 10 + spec_digit_val(d[0]),
        ));
    }
}

proof fn lemma_dec_digits(n: nat)
    ensures
        spec_u64_dec(n).len() >= 1,
        forall|k: int|
            0 <= k < spec_u64_dec(n).len() ==> spec_is_digit(#[trigger] spec_u64_dec(n)[k]),
        digits_front_val(spec_u64_dec(n), 0) == n,
    decreases n,
{
    if n < 10 {
        assert(spec_u64_dec(n) =~= seq![spec_digit_char(n)]);
        assert(spec_u64_dec(n).skip(1) =~= Seq::<char>::empty());
        assert(spec_is_digit(spec_digit_char(n)));
        assert(spec_u64_dec(n)[0] == spec_digit_char(n));
        assert(digits_front_val(spec_u64_dec(n), 0) == digits_front_val(
            Seq::<char>::empty(),
            0 * 10 + spec_digit_val(spec_digit_char(n)) as int,
        ));
        assert(digits_front_val(Seq::<char>::empty(), spec_digit_val(spec_digit_char(n)) as int)
            == spec_digit_val(spec_digit_char(n)));
        assert(spec_digit_val(spec_digit_char(n)) == n);
    } else {
        lemma_dec_digits(n / 10);
        lemma_digits_front_val_snoc(spec_u64_dec(n / 10), spec_digit_char(n % 10), 0);
        assert(spec_is_digit(spec_digit_char(n % 10)));
        assert(spec_digit_val(spec_digit_char(n % 10)) == n % 10);
        assert forall|k: int| 0 <= k < spec_u64_dec(n).len() implies spec_is_digit(
            #[trigger] spec_u64_dec(n)[k],
        ) by {
            if k < spec_u64_dec(n / 10).len() {
                assert(spec_u64_dec(n)[k] == spec_u64_dec(n / 10)[k]);
            } else {
                assert(spec_u64_dec(n)[k] == spec_digit_char(n % 10));
            }
        }
    }
}

proof fn lemma_digits_front_val_mono(d: Seq<char>, acc: int)
    requires
        acc >= 0,
    ensures
        digits_front_val(d, acc) >= acc,
    decreases d.len(),
{
    if d.len() > 0 {
        assert(acc * 10 == acc + 9 * acc);
        lemma_digits_front_val_mono(d.skip(1), acc * 10 + spec_digit_val(d[0]));
    }
}

proof fn lemma_scan_digits(s: Seq<char>, i: int, acc: u64, d: Seq<char>, rest: Seq<char>)
    requires
        0 <= i <= s.len(),
        s.skip(i) == d + rest,
        forall|k: int| 0 <= k < d.len() ==> spec_is_digit(#[trigger] d[k]),
        rest.len() == 0 || !spec_is_digit(rest[0]),
        0 <= digits_front_val(d, acc as int) <= u64::MAX as int,
    ensures
        spec_scan_u64(s, i, acc) == Some(((digits_front_val(d, acc as int)) as u64, i + d.len())),
    decreases d.len(),
{
    lemma_skip_step(s, i, d, rest);
    if d.len() == 0 {
        if rest.len() > 0 {
            assert(s.skip(i)[0] == s[i]);
            assert((d + rest)[0] == rest[0]);
            assert(!spec_is_digit(s[i]));
        } else {
            assert(i == s.len());
        }
    } else {
        assert(s[i] == d[0]);
        let acc2: int = acc as int * 10 + spec_digit_val(d[0]);
        assert(forall|k: int| 0 <= k < d.skip(1).len() ==> #[trigger] d.skip(1)[k] == d[k + 1]);
        lemma_digits_front_val_mono(d.skip(1), acc2);
        assert(digits_front_val(d, acc as int) == digits_front_val(d.skip(1), acc2));
        assert(d + rest =~= seq![d[0]] + (d.skip(1) + rest));
        lemma_skip_step(s, i, seq![d[0]], d.skip(1) + rest);
        lemma_scan_digits(s, i + 1, acc2 as u64, d.skip(1), rest);
    }
}

proof fn lemma_parse_u64_prefix(s: Seq<char>, i: int, n: u64, rest: Seq<char>)
    requires
        0 <= i <= s.len(),
        s.skip(i) == spec_u64_dec(n as nat) + rest,
        rest.len() == 0 || !spec_is_digit(rest[0]),
    ensures
        spec_parse_u64(s, i) == Some((n, i + spec_u64_dec(n as nat).len())),
{
    lemma_dec_digits(n as nat);
    lemma_skip_step(s, i, spec_u64_dec(n as nat), rest);
    assert(s[i] == spec_u64_dec(n as nat)[0]);
    lemma_scan_digits(s, i, 0, spec_u64_dec(n as nat), rest);
}

proof fn lemma_parse_version_prefix(s: Seq<char>, i: int, v: Version, rest: Seq<char>)
    requires
        0 <= i <= s.len(),
        s.skip(i) == seq!['"'] + (spec_version_chars(v) + (seq!['"'] + rest)),
    ensures
        spec_parse_version(s, i) == Some((v, i + spec_version_chars(v).len() + 2)),
{
    reveal_strlit(".");
    reveal_strlit("\"");
    let ma = spec_u64_dec(v.major as nat);
    let mi = spec_u64_dec(v.minor as nat);
    let pa = spec_u64_dec(v.patch as nat);
    lemma_dec_digits(v.major as nat);
    lemma_dec_digits(v.minor as nat);
    lemma_dec_digits(v.patch as nat);
    let v1 = seq!['"'] + rest;
    let v2 = pa + v1;
    let v3 = seq!['.'] + v2;
    let v4 = mi + v3;
    let v5 = seq!['.'] + v4;
    let v6 = ma + v5;
    assert(spec_version_chars(v) + (seq!['"'] + rest) =~= v6);
    lemma_skip_step(s, i, seq!['"'], v6);
    let p0 = i + 1;
    lemma_parse_u64_prefix(s, p0, v.major, v5);
    lemma_skip_step(s, p0, ma, v5);
    let p1 = p0 + ma.len();
    assert("."@ =~= seq!['.']);
    lemma_expect_prefix(s, p1, "."@, v4);
    lemma_skip_step(s, p1, seq!['.'], v4);
    let p2 = p1 + 1;
    lemma_parse_u64_prefix(s, p2, v.minor, v3);
    lemma_skip_step(s, p2, mi, v3);
    let p3 = p2 + mi.len();
    lemma_expect_prefix(s, p3, "."@, v2);
    lemma_skip_step(s, p3, seq!['.'], v2);
    let p4 = p3 + 1;
    lemma_parse_u64_prefix(s, p4, v.patch, v1);
    lemma_skip_step(s, p4, pa, v1);
    let p5 = p4 + pa.len();
    assert("\""@ =~= seq!['"']);
    lemma_expect_prefix(s, p5, "\""@, rest);
}

proof fn lemma_scan_raw_embed(s: Seq<char>, i: int, mid: Seq<char>, rest: Seq<char>)
    requires
        0 <= i <= s.len(),
        s.skip(i) == mid + (seq!['}'] + rest),
        forall|k: int| 0 <= k < mid.len() ==> mid[k] != '{' && #[trigger] mid[k] != '}',
    ensures
        spec_scan_raw(s, i, 1) == Some(i + mid.len() + 1),
    decreases mid.len(),
{
    if mid.len() == 0 {
        assert(mid + (seq!['}'] + rest) =~= seq!['}'] + rest);
        lemma_skip_step(s, i, seq!['}'], rest);
        assert(s[i] == '}');
    } else {
        assert(mid + (seq!['}'] + rest) =~= seq![mid[0]] + (mid.skip(1) + (seq!['}'] + rest)));
        lemma_skip_step(s, i, seq![mid[0]], mid.skip(1) + (seq!['}'] + rest));
        assert(s[i] == mid[0]);
        assert(forall|k: int| 0 <= k < mid.skip(1).len() ==> #[trigger] mid.skip(1)[k] == mid[k
            + 1]);
        lemma_scan_raw_embed(s, i + 1, mid.skip(1), rest);
    }
}

proof fn lemma_parse_raw_prefix(s: Seq<char>, i: int, sch: Seq<char>, rest: Seq<char>)
    requires
        0 <= i <= s.len(),
        s.skip(i) == sch + rest,
        schema_wf(sch),
    ensures
        spec_parse_raw_value(s, i) == Some((sch, i + sch.len() as int)),
{
    lemma_skip_step(s, i, sch, rest);
    assert(s[i] == sch[0]);
    let mid = sch.subrange(1, sch.len() - 1);
    assert(sch =~= seq![sch[0]] + (mid + (seq![sch[sch.len() - 1]] + Seq::<char>::empty())));
    assert(sch + rest =~= seq!['{'] + (mid + (seq!['}'] + rest)));
    lemma_skip_step(s, i, seq!['{'], mid + (seq!['}'] + rest));
    lemma_scan_raw_embed(s, i + 1, mid, rest);
    assert forall|k: int| 0 <= k < sch.len() implies s.subrange(i, i + sch.len() as int)[k]
        == sch[k] by {
        assert(s.skip(i)[k] == s[i + k]);
        assert((sch + rest)[k] == sch[k]);
        assert(s.subrange(i, i + sch.len() as int)[k] == s[i + k]);
    }
    assert(s.subrange(i, i + sch.len() as int) =~= sch);
}

proof fn lemma_field_header(s: Seq<char>, p: int, key: Seq<char>, rest: Seq<char>)
    requires
        0 <= p <= s.len(),
        s.skip(p) == ","@ + (key + (":"@ + rest)),
        key.len() > 0,
        !spec_is_ws(key[0]),
    ensures
        spec_tok(s, p, ","@) == Some(p + 1),
        spec_tok(s, p + 1, key) == Some(p + 1 + key.len() as int),
        spec_tok(s, p + 1 + key.len() as int, ":"@) == Some(p + 2 + key.len() as int),
        s.skip(p + 2 + key.len() as int) == rest,
        p + 2 + key.len() + rest.len() == s.len(),
{
    reveal_strlit(",");
    reveal_strlit(":");
    lemma_tok_prefix(s, p, ","@, key + (":"@ + rest));
    lemma_skip_step(s, p, ","@, key + (":"@ + rest));
    lemma_tok_prefix(s, p + 1, key, ":"@ + rest);
    lemma_skip_step(s, p + 1, key, ":"@ + rest);
    lemma_tok_prefix(s, p + 1 + key.len() as int, ":"@, rest);
    lemma_skip_step(s, p + 1 + key.len() as int, ":"@, rest);
}

spec fn spec_chain6(c: WorkerConfiguration) -> Seq<char> {
    ","@ + ("\"parameters\""@ + (":"@ + (c.parameter_schema@ + ("}"@ + Seq::<char>::empty()))))
}

spec fn spec_chain5(c: WorkerConfiguration) -> Seq<char> {
    ","@ + ("\"instance_id\""@ + (":"@ + (spec_json_string(c.instance_id@) + spec_chain6(c))))
}

spec fn spec_chain4(c: WorkerConfiguration) -> Seq<char> {
    ","@ + ("\"sdk_version\""@ + (":"@ + (seq!['"'] + (spec_version_chars(c.sdk_version) + (
    seq!['"'] + spec_chain5(c))))))
}

spec fn spec_chain3(c: WorkerConfiguration) -> Seq<char> {
    ","@ + ("\"worker_version\""@ + (":"@ + (seq!['"'] + (spec_version_chars(c.worker_version)
        + (seq!['"'] + spec_chain4(c))))))
}

spec fn spec_chain2(c: WorkerConfiguration) -> Seq<char> {
    ","@ + ("\"worker_name\""@ + (":"@ + (spec_json_string(c.worker_name@) + spec_chain3(c))))
}

spec fn spec_chain1(c: WorkerConfiguration) -> Seq<char> {
    "\"queue\""@ + (":"@ + (spec_json_string(c.queue@) + spec_chain2(c)))
}

#[verifier::rlimit(100)]
proof fn lemma_config_flat(c: WorkerConfiguration)
    ensures
        spec_config_json(c) == "{"@ + spec_chain1(c),
{
    reveal_strlit("{");
    reveal_strlit("}");
    reveal_strlit(":");
    reveal_strlit(",");
    reveal_strlit("\"queue\"");
    reveal_strlit("\"worker_name\"");
    reveal_strlit("\"worker_version\"");
    reveal_strlit("\"sdk_version\"");
    reveal_strlit("\"instance_id\"");
    reveal_strlit("\"parameters\"");
    reveal_strlit("{\"queue\":");
    reveal_strlit(",\"worker_name\":");
    reveal_strlit(",\"worker_version\":\"");
    reveal_strlit("\",\"sdk_version\":\"");
    reveal_strlit("\",\"instance_id\":");
    reveal_strlit(",\"parameters\":");
    assert(spec_config_json(c) =~= "{"@ + spec_chain1(c));
}

/// Printing a configuration and decoding the print yields the semantically
/// equal configuration: every travelling field comes back as it was, and
/// only the two description fields, which do not travel, come back empty.
#[verifier::rlimit(100)]
pub proof fn lemma_config_round_trip(c: WorkerConfiguration)
    requires
        config_wf(c@),
    ensures
        spec_parse_config(spec_config_json(c)) == Some(
            (WorkerConfigurationView {
                short_description: Seq::empty(),
                description: Seq::empty(),
                ..c@
            }),
        ),
{
    let s = spec_config_json(c);
    let q = spec_json_string(c.queue@);
    let w = spec_json_string(c.worker_name@);
    let wv = spec_version_chars(c.worker_version);
    let sv = spec_version_chars(c.sdk_version);
    let iid = spec_json_string(c.instance_id@);
    let sch = c.parameter_schema@;
    lemma_escape_id(c.queue@);
    reveal_strlit("{");
    reveal_strlit(":");
    reveal_strlit(",");
    reveal_strlit("\"queue\"");
    let t1 = "}"@ + Seq::<char>::empty();
    let t2 = sch + t1;
    let t3 = ":"@ + t2;
    let t4 = "\"parameters\""@ + t3;
    let t5 = ","@ + t4;
    let t6 = iid + t5;
    let t7 = ":"@ + t6;
    let t8 = "\"instance_id\""@ + t7;
    let t9 = ","@ + t8;
    let t10 = seq!['"'] + t9;
    let t11 = sv + t10;
    let t12 = seq!['"'] + t11;
    let t13 = ":"@ + t12;
    let t14 = "\"sdk_version\""@ + t13;
    let t15 = ","@ + t14;
    let t16 = seq!['"'] + t15;
    let t17 = wv + t16;
    let t18 = seq!['"'] + t17;
    let t19 = ":"@ + t18;
    let t20 = "\"worker_version\""@ + t19;
    let t21 = ","@ + t20;
    let t22 = w + t21;
    let t23 = ":"@ + t22;
    let t24 = "\"worker_name\""@ + t23;
    let t25 = ","@ + t24;
    let t26 = q + t25;
    let t27 = ":"@ + t26;
    let t28 = "\"queue\""@ + t27;
    assert(s.skip(0) =~= s);
    lemma_config_flat(c);
    assert(spec_chain6(c) == t5);
    assert(spec_chain5(c) == t9);
    assert(spec_chain4(c) == t15);
    assert(spec_chain3(c) == t21);
    assert(spec_chain2(c) == t25);
    assert(spec_chain1(c) == t28);
    assert(s == "{"@ + t28);
    lemma_tok_prefix(s, 0, "{"@, t28);
    lemma_skip_step(s, 0, "{"@, t28);
    let p1 = 1;
    lemma_tok_prefix(s, p1, "\"queue\""@, t27);
    lemma_skip_step(s, p1, "\"queue\""@, t27);
    let p2 = p1 + 7;
    lemma_tok_prefix(s, p2, ":"@, t26);
    lemma_skip_step(s, p2, ":"@, t26);
    let p3 = p2 + 1;
    lemma_skip_step(s, p3, q, t25);
    assert(s[p3] == q[0]);
    assert(q[0] == '"');
    assert(spec_ws(s, p3) == p3);
    lemma_parse_string_prefix(s, p3, c.queue@, t25);
    let p4 = p3 + q.len();
    lemma_config_round_trip_mid(c, s, p4);
}

#[verifier::rlimit(100)]
proof fn lemma_config_round_trip_mid(c: WorkerConfiguration, s: Seq<char>, i: int)
    requires
        config_wf(c@),
        0 <= i <= s.len(),
        s.skip(i) == spec_chain2(c),
    ensures
        spec_parse_config_mid(s, i, c.queue@) == Some(
            (WorkerConfigurationView {
                short_description: Seq::empty(),
                description: Seq::empty(),
                ..c@
            }),
        ),
{
    let w = spec_json_string(c.worker_name@);
    lemma_escape_id(c.worker_name@);
    reveal_strlit(":");
    reveal_strlit(",");
    reveal_strlit("\"worker_name\"");
    let t21 = spec_chain3(c);
    let t22 = w + t21;
    assert(s.skip(i) == ","@ + ("\"worker_name\""@ + (":"@ + t22)));
    lemma_field_header(s, i, "\"worker_name\""@, t22);
    let p5 = i + 15;
    lemma_skip_step(s, p5, w, t21);
    assert(s[p5] == w[0]);
    assert(w[0] == '"');
    assert(spec_ws(s, p5) == p5);
    lemma_parse_string_prefix(s, p5, c.worker_name@, t21);
    let p6 = p5 + w.len();
    lemma_config_round_trip_ver(c, s, p6);
}

#[verifier::rlimit(100)]
proof fn lemma_config_round_trip_ver(c: WorkerConfiguration, s: Seq<char>, i: int)
    requires
        config_wf(c@),
        0 <= i <= s.len(),
        s.skip(i) == spec_chain3(c),
    ensures
        spec_parse_config_ver(s, i, c.queue@, c.worker_name@) == Some(
            (WorkerConfigurationView {
                short_description: Seq::empty(),
                description: Seq::empty(),
                ..c@
            }),
        ),
{
    let wv = spec_version_chars(c.worker_version);
    reveal_strlit(":");
    reveal_strlit(",");
    reveal_strlit("\"worker_version\"");
    let t15 = spec_chain4(c);
    let t16 = seq!['"'] + t15;
    let t17 = wv + t16;
    let t18 = seq!['"'] + t17;
    assert(s.skip(i) == ","@ + ("\"worker_version\""@ + (":"@ + t18)));
    lemma_field_header(s, i, "\"worker_version\""@, t18);
    let p7 = i + 18;
    lemma_skip_step(s, p7, seq!['"'], t17);
    assert(s[p7] == '"');
    assert(spec_ws(s, p7) == p7);
    assert(t18 == seq!['"'] + (wv + (seq!['"'] + t15)));
    lemma_parse_version_prefix(s, p7, c.worker_version, t15);
    lemma_skip_step(s, p7 + 1, wv, t16);
    lemma_skip_step(s, p7 + 1 + wv.len() as int, seq!['"'], t15);
    let p8 = p7 + wv.len() + 2;
    assert(s.skip(p8) == t15);
    lemma_config_round_trip_tail(c, s, p8);
}

#[verifier::rlimit(100)]
proof fn lemma_config_round_trip_tail(c: WorkerConfiguration, s: Seq<char>, i: int)
    requires
        config_wf(c@),
        0 <= i <= s.len(),
        s.skip(i) == spec_chain4(c),
    ensures
        spec_parse_config_tail(s, i, c.queue@, c.worker_name@, c.worker_version) == Some(
            (WorkerConfigurationView {
                short_description: Seq::empty(),
                description: Seq::empty(),
                ..c@
            }),
        ),
{
    let sv = spec_version_chars(c.sdk_version);
    let iid = spec_json_string(c.instance_id@);
    let sch = c.parameter_schema@;
    lemma_escape_id(c.instance_id@);
    reveal_strlit(",");
    reveal_strlit(":");
    reveal_strlit("}");
    reveal_strlit("\"sdk_version\"");
    reveal_strlit("\"instance_id\"");
    reveal_strlit("\"parameters\"");
    let t1 = "}"@ + Seq::<char>::empty();
    let t2 = sch + t1;
    let t3 = ":"@ + t2;
    let t4 = "\"parameters\""@ + t3;
    let t5 = ","@ + t4;
    let t6 = iid + t5;
    let t7 = ":"@ + t6;
    let t8 = "\"instance_id\""@ + t7;
    let t9 = ","@ + t8;
    let t10 = seq!['"'] + t9;
    let t11 = sv + t10;
    let t12 = seq!['"'] + t11;
    assert(spec_chain6(c) == t5);
    assert(spec_chain5(c) == t9);
    assert(s.skip(i) == ","@ + ("\"sdk_version\""@ + (":"@ + t12)));
    lemma_field_header(s, i, "\"sdk_version\""@, t12);
    let p1 = i + 15;
    lemma_skip_step(s, p1, seq!['"'], t11);
    assert(s[p1] == '"');
    assert(spec_ws(s, p1) == p1);
    assert(t12 == seq!['"'] + (sv + (seq!['"'] + t9)));
    lemma_parse_version_prefix(s, p1, c.sdk_version, t9);
    lemma_skip_step(s, p1 + 1, sv, t10);
    lemma_skip_step(s, p1 + 1 + sv.len() as int, seq!['"'], t9);
    let p2 = p1 + sv.len() + 2;
    assert(s.skip(p2) == t9);
    lemma_field_header(s, p2, "\"instance_id\""@, t6);
    let p3 = p2 + 15;
    lemma_skip_step(s, p3, iid, t5);
    assert(s[p3] == iid[0]);
    assert(iid[0] == '"');
    assert(spec_ws(s, p3) == p3);
    lemma_parse_string_prefix(s, p3, c.instance_id@, t5);
    lemma_skip_step(s, p3, iid, t5);
    let p4 = p3 + iid.len();
    lemma_field_header(s, p4, "\"parameters\""@, t2);
    let p5 = p4 + 14;
    lemma_skip_step(s, p5, sch, t1);
    assert(s[p5] == sch[0]);
    assert(spec_ws(s, p5) == p5);
    lemma_parse_raw_prefix(s, p5, sch, t1);
    lemma_skip_step(s, p5, sch, t1);
    let p6 = p5 + sch.len();
    assert(t1 =~= "}"@ + Seq::<char>::empty());
    lemma_tok_prefix(s, p6, "}"@, Seq::empty());
    lemma_skip_step(s, p6, "}"@, Seq::empty());
    let p7 = p6 + 1;
    assert(p7 == s.len());
    assert(spec_ws(s, p7) == s.len());
}

/// Encodes one response message as the payload the exchange publishes.
pub fn serialize_response(r: &ResponseMessage) -> (s: String)
    ensures
        s@ == spec_response_json(*r),
{
    match r {
        ResponseMessage::Initialized(jr) => serialize_job_result(jr),
        ResponseMessage::Started(jr) => serialize_job_result(jr),
        ResponseMessage::Completed(jr) => serialize_job_result(jr),
        ResponseMessage::Progression(p) => serialize_progression(p),
        ResponseMessage::Error(e) => serialize_error(e),
        ResponseMessage::WorkerCreated(c) => serialize_worker_configuration(c),
        ResponseMessage::WorkerInitialized(jr) => serialize_job_result(jr),
        ResponseMessage::WorkerStarted(jr) => serialize_job_result(jr),
    }
}

} // verus!
