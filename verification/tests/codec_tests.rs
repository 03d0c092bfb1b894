use mcai_worker_sdk::codec::{
    parse_direct_order, parse_worker_configuration, serialize_job, serialize_job_result,
    serialize_progression, serialize_response, serialize_worker_configuration,
};
use mcai_worker_sdk::error::MessageError;
use mcai_worker_sdk::job::{
    Job, JobProgression, JobResult, JobStatus, Parameter, ParameterValue, Credential, Requirement,
};
use mcai_worker_sdk::message_exchange::{OrderMessage, ResponseMessage};
use mcai_worker_sdk::worker::{Version, WorkerConfiguration};

#[test]
fn parse_accepts_empty_parameter_list() {
    let job = Job::parse("{\"job_id\": 1, \"parameters\": []}").unwrap();
    assert_eq!(job.job_id, 1);
    assert!(job.parameters.is_empty());
}

#[test]
fn parse_reads_every_parameter_kind() {
    let text = "{\"job_id\":690,\"parameters\":[{\"id\":\"input\",\"type\":\"string\",\"value\":\"file.mov\"},{\"id\":\"count\",\"type\":\"integer\",\"value\":-12},{\"id\":\"flag\",\"type\":\"boolean\",\"value\":true},{\"id\":\"names\",\"type\":\"array_of_strings\",\"value\":[\"a\",\"b\"]},{\"id\":\"sizes\",\"type\":\"array_of_integers\",\"value\":[1,2,3]},{\"id\":\"secret\",\"type\":\"credential\",\"store\":\"vault\",\"value\":\"KEY\"},{\"id\":\"requirements\",\"type\":\"requirements\",\"value\":{\"paths\":[\"/tmp\"]}}]}";
    let job = Job::parse(text).unwrap();
    assert_eq!(job.job_id, 690);
    assert_eq!(job.parameters.len(), 7);
    let key = "input".to_string();
    assert_eq!(job.get_string_parameter(&key).unwrap(), "file.mov");
    let key = "count".to_string();
    assert_eq!(job.get_integer_parameter(&key).unwrap(), -12);
    let key = "flag".to_string();
    assert_eq!(job.get_boolean_parameter(&key).unwrap(), true);
    let key = "secret".to_string();
    let (store, credential) = job.get_credential_parameter(&key).unwrap();
    assert_eq!(store, "vault");
    assert_eq!(credential, Credential { key: "KEY".to_string() });
    let paths = job.requirement_paths();
    assert_eq!(paths, vec!["/tmp".to_string()]);
}

#[test]
fn parse_rejects_malformed_documents() {
    assert!(matches!(Job::parse(""), Err(MessageError::ParseError(_))));
    assert!(matches!(Job::parse("{}"), Err(MessageError::ParseError(_))));
    assert!(matches!(
        Job::parse("{\"job_id\": 1}"),
        Err(MessageError::ParseError(_))
    ));
    assert!(matches!(
        Job::parse("{\"job_id\": -1, \"parameters\": []}"),
        Err(MessageError::ParseError(_))
    ));
    assert!(matches!(
        Job::parse("{\"job_id\": 1, \"parameters\": []} trailing"),
        Err(MessageError::ParseError(_))
    ));
}

#[test]
fn parse_type_mismatch_is_structured_error() {
    let job = Job::parse("{\"job_id\":1,\"parameters\":[{\"id\":\"x\",\"type\":\"integer\",\"value\":3}]}")
        .unwrap();
    let key = "x".to_string();
    assert!(matches!(
        job.get_string_parameter(&key),
        Err(MessageError::RuntimeError(_))
    ));
    let key = "missing".to_string();
    assert!(matches!(
        job.get_string_parameter(&key),
        Err(MessageError::RuntimeError(_))
    ));
}

#[test]
fn serialize_job_round_trips_through_parse() {
    let job = Job {
        job_id: 42,
        parameters: vec![
            Parameter {
                id: "input".to_string(),
                value: ParameterValue::StringValue("file.mov".to_string()),
            },
            Parameter {
                id: "sizes".to_string(),
                value: ParameterValue::ArrayOfIntegers(vec![-1, 0, 7]),
            },
            Parameter {
                id: "requirements".to_string(),
                value: ParameterValue::Requirements(Requirement {
                    paths: vec!["/tmp".to_string()],
                }),
            },
        ],
    };
    let text = serialize_job(&job);
    assert_eq!(
        text,
        "{\"job_id\":42,\"parameters\":[{\"id\":\"input\",\"type\":\"string\",\"value\":\"file.mov\"},{\"id\":\"sizes\",\"type\":\"array_of_integers\",\"value\":[-1,0,7]},{\"id\":\"requirements\",\"type\":\"requirements\",\"value\":{\"paths\":[\"/tmp\"]}}]}"
    );
    let back = Job::parse(&text).unwrap();
    assert_eq!(back.job_id, 42);
    assert_eq!(back.parameters.len(), 3);
    let key = "input".to_string();
    assert_eq!(back.get_string_parameter(&key).unwrap(), "file.mov");
}

#[test]
fn serialize_job_result_matches_wire_format() {
    let result = JobResult {
        job_id: 690,
        status: JobStatus::Completed,
        parameters: vec![],
        datetime: "2024-01-01T00:00:00+00:00".to_string(),
    };
    assert_eq!(
        serialize_job_result(&result),
        "{\"job_id\":690,\"status\":\"completed\",\"parameters\":[],\"datetime\":\"2024-01-01T00:00:00+00:00\"}"
    );
}

#[test]
fn serialize_progression_matches_wire_format() {
    let p = JobProgression {
        job_id: 690,
        progress: 33,
        datetime: "2024-01-01T00:00:00+00:00".to_string(),
    };
    assert_eq!(
        serialize_progression(&p),
        "{\"job_id\":690,\"progression\":33,\"datetime\":\"2024-01-01T00:00:00+00:00\"}"
    );
}

#[test]
fn serialize_error_responses() {
    let processing = ResponseMessage::Error(MessageError::ProcessingError(7, "boom".to_string()));
    assert_eq!(
        serialize_response(&processing),
        "{\"job_id\":7,\"status\":\"error\",\"message\":\"boom\"}"
    );
    let runtime = ResponseMessage::Error(MessageError::RuntimeError("bad".to_string()));
    assert_eq!(
        serialize_response(&runtime),
        "{\"status\":\"error\",\"message\":\"bad\"}"
    );
    let not_implemented = ResponseMessage::Error(MessageError::NotImplemented());
    assert_eq!(
        serialize_response(&not_implemented),
        "{\"status\":\"error\",\"message\":\"not implemented\"}"
    );
}

#[test]
fn string_values_are_escaped() {
    let result = JobResult {
        job_id: 1,
        status: JobStatus::Error,
        parameters: vec![Parameter {
            id: "message".to_string(),
            value: ParameterValue::StringValue("a \"quoted\\\" word".to_string()),
        }],
        datetime: "t".to_string(),
    };
    let text = serialize_job_result(&result);
    assert!(text.contains("a \\\"quoted\\\\\\\" word"));
}

fn sample_configuration() -> WorkerConfiguration {
    WorkerConfiguration {
        queue: "job_sample".to_string(),
        worker_name: "sample".to_string(),
        short_description: "short".to_string(),
        description: "long".to_string(),
        worker_version: Version::new(0, 0, 1),
        sdk_version: Version::new(1, 0, 0),
        instance_id: "instance-1".to_string(),
        parameter_schema: "{\"type\":\"object\"}".to_string(),
    }
}

#[test]
fn describe_document_has_the_expected_fields() {
    let text = serialize_worker_configuration(&sample_configuration());
    assert_eq!(
        text,
        "{\"queue\":\"job_sample\",\"worker_name\":\"sample\",\"worker_version\":\"0.0.1\",\"sdk_version\":\"1.0.0\",\"instance_id\":\"instance-1\",\"parameters\":{\"type\":\"object\"}}"
    );
}

#[test]
fn configuration_round_trips_semantically() {
    let config = sample_configuration();
    let text = serialize_worker_configuration(&config);
    let back = parse_worker_configuration(&text).unwrap();
    assert_eq!(back.queue, config.queue);
    assert_eq!(back.worker_name, config.worker_name);
    assert_eq!(back.worker_version, config.worker_version);
    assert_eq!(back.sdk_version, config.sdk_version);
    assert_eq!(back.instance_id, config.instance_id);
    assert_eq!(back.parameter_schema, config.parameter_schema);
    // the description fields do not travel
    assert_eq!(back.short_description, "");
    assert_eq!(back.description, "");
    // a second pass is stable
    let text2 = serialize_worker_configuration(&WorkerConfiguration {
        short_description: config.short_description.clone(),
        description: config.description.clone(),
        ..back
    });
    assert_eq!(text, text2);
}

#[test]
fn parse_configuration_rejects_malformed_documents() {
    assert!(matches!(
        parse_worker_configuration("{\"queue\":\"q\"}"),
        Err(MessageError::ParseError(_))
    ));
}

#[test]
fn direct_orders_classify_by_payload() {
    assert!(matches!(parse_direct_order("stop_worker"), Ok(OrderMessage::StopWorker)));
    assert!(matches!(
        parse_direct_order("stop_process {\"job_id\": 9, \"parameters\": []}"),
        Ok(OrderMessage::StopProcess(j)) if j.job_id == 9
    ));
    assert!(matches!(
        parse_direct_order("{\"job_id\": 4, \"parameters\": []}"),
        Ok(OrderMessage::Status(j)) if j.job_id == 4
    ));
    assert!(matches!(
        parse_direct_order("stop_process nonsense"),
        Err(MessageError::ParseError(_))
    ));
    assert!(matches!(
        parse_direct_order("nonsense"),
        Err(MessageError::ParseError(_))
    ));
}

#[test]
fn control_characters_escape_and_return() {
    let result = JobResult {
        job_id: 2,
        status: JobStatus::Error,
        parameters: vec![Parameter {
            id: "message".to_string(),
            value: ParameterValue::StringValue("line one\nline\ttwo\r".to_string()),
        }],
        datetime: "t".to_string(),
    };
    let text = serialize_job_result(&result);
    assert!(text.contains("line one\\nline\\ttwo\\r"));
    assert!(!text.contains('\n'));

    let order = "{\"job_id\":3,\"parameters\":[{\"id\":\"m\",\"type\":\"string\",\"value\":\"a\\nb\\tc\\\"d\\/e\"}]}";
    let job = Job::parse(order).unwrap();
    let key = "m".to_string();
    assert_eq!(job.get_string_parameter(&key).unwrap(), "a\nb\tc\"d/e");
}
