use mcai_worker_sdk::error::MessageError;
use mcai_worker_sdk::job::{JobProgression, JobResult, ProgressionSink};
use mcai_worker_sdk::message_exchange::{
    response_destination, LocalExchange, OrderMessage, ResponseDestination, ResponseMessage,
};
use mcai_worker_sdk::job::{CredentialResolver, Job};
use mcai_worker_sdk::worker::{sdk_version, MessageEvent, Version, WorkerConfiguration};

struct SampleEvent;

impl MessageEvent for SampleEvent {
    fn get_name(&self) -> String {
        "sample".to_string()
    }
    fn get_short_description(&self) -> String {
        "short".to_string()
    }
    fn get_description(&self) -> String {
        "long".to_string()
    }
    fn get_version(&self) -> Version {
        Version::new(0, 0, 1)
    }
}

#[test]
fn configuration_carries_the_handler_identity() {
    let queue = "job_sample".to_string();
    let instance = "instance-1".to_string();
    let config = WorkerConfiguration::new(&queue, &SampleEvent, &instance);
    assert_eq!(config.get_worker_name(), "sample");
    assert_eq!(config.get_worker_version(), Version::new(0, 0, 1));
    assert_eq!(config.get_sdk_version(), sdk_version());
    assert_eq!(config.get_queue_name(), "job_sample");
    assert_eq!(config.get_instance_id(), "instance-1");
}

#[test]
fn queue_names_follow_the_layout() {
    let queue = "job_sample".to_string();
    let instance = "instance-1".to_string();
    let config = WorkerConfiguration::new(&queue, &SampleEvent, &instance);
    assert_eq!(config.get_direct_messaging_queue_name(), "direct_messaging.instance-1");
    assert_eq!(config.get_completed_queue_name(), "job_sample_completed");
    assert_eq!(config.get_error_queue_name(), "job_sample_error");
}

fn result_for(id: u64) -> JobResult {
    JobResult::new(id)
}

#[test]
fn responses_route_to_their_destinations() {
    assert_eq!(
        response_destination(&ResponseMessage::Completed(result_for(1))),
        ResponseDestination::CompletedQueue
    );
    assert_eq!(
        response_destination(&ResponseMessage::Error(MessageError::ProcessingError(
            1,
            "m".to_string()
        ))),
        ResponseDestination::ErrorQueue
    );
    assert_eq!(
        response_destination(&ResponseMessage::Error(MessageError::RuntimeError("m".to_string()))),
        ResponseDestination::ErrorQueue
    );
    assert_eq!(
        response_destination(&ResponseMessage::Error(MessageError::RequirementsError(
            "m".to_string()
        ))),
        ResponseDestination::NotPublished
    );
    assert_eq!(
        response_destination(&ResponseMessage::Error(MessageError::NotImplemented())),
        ResponseDestination::NotPublished
    );
    assert_eq!(
        response_destination(&ResponseMessage::Progression(JobProgression {
            job_id: 1,
            progress: 10,
            datetime: "t".to_string(),
        })),
        ResponseDestination::ProgressionExchange
    );
    assert_eq!(
        response_destination(&ResponseMessage::Initialized(result_for(1))),
        ResponseDestination::WorkerResponseExchange
    );
    assert_eq!(
        response_destination(&ResponseMessage::Started(result_for(1))),
        ResponseDestination::WorkerResponseExchange
    );
    assert_eq!(
        response_destination(&ResponseMessage::WorkerInitialized(result_for(1))),
        ResponseDestination::WorkerStatusExchange
    );
}

#[test]
fn local_exchange_is_fifo_in_both_directions() {
    let mut exchange = LocalExchange::new();
    assert!(exchange.next_order().is_none());
    assert!(exchange.next_response().is_none());

    let job_a = Job { job_id: 1, parameters: vec![] };
    let job_b = Job { job_id: 2, parameters: vec![] };
    exchange.send_order(OrderMessage::InitProcess(job_a)).unwrap();
    exchange.send_order(OrderMessage::StartProcess(job_b)).unwrap();
    assert!(matches!(exchange.next_order(), Some(OrderMessage::InitProcess(j)) if j.job_id == 1));
    assert!(matches!(exchange.next_order(), Some(OrderMessage::StartProcess(j)) if j.job_id == 2));
    assert!(exchange.next_order().is_none());

    exchange.send_response(ResponseMessage::Started(result_for(1))).unwrap();
    exchange.send_response(ResponseMessage::Completed(result_for(1))).unwrap();
    assert!(matches!(exchange.next_response(), Some(ResponseMessage::Started(_))));
    assert!(matches!(exchange.next_response(), Some(ResponseMessage::Completed(_))));
    assert!(exchange.next_response().is_none());
}

#[test]
fn job_result_accumulates_parameters() {
    let mut result = JobResult::new(5);
    assert_eq!(result.job_id, 5);
    assert!(result.parameters.is_empty());
    result.add_parameter(mcai_worker_sdk::job::Parameter {
        id: "destination".to_string(),
        value: mcai_worker_sdk::job::ParameterValue::StringValue("out.mov".to_string()),
    });
    assert_eq!(result.parameters.len(), 1);
    let done = result.with_status(mcai_worker_sdk::job::JobStatus::Completed);
    assert_eq!(done.status, mcai_worker_sdk::job::JobStatus::Completed);
}

#[test]
fn progression_sink_keeps_report_order() {
    let mut sink = ProgressionSink::new();
    mcai_worker_sdk::job::publish_job_progression(&mut sink, 3, 10).unwrap();
    mcai_worker_sdk::job::publish_job_progression(&mut sink, 3, 20).unwrap();
    let items = sink.take_items();
    assert_eq!(items.len(), 2);
    assert_eq!(items[0].progress, 10);
    assert_eq!(items[1].progress, 20);
    assert_eq!(items[0].job_id, 3);
}

#[test]
fn credential_values_resolve_at_read_time() {
    struct TableResolver;
    impl CredentialResolver for TableResolver {
        fn resolve(&mut self, key: &String, store: &String) -> Result<String, String> {
            if key == "KEY" && store == "vault" {
                Ok("opensesame".to_string())
            } else {
                Err("unknown credential".to_string())
            }
        }
    }
    let job = Job {
        job_id: 1,
        parameters: vec![
            mcai_worker_sdk::job::Parameter {
                id: "secret".to_string(),
                value: mcai_worker_sdk::job::ParameterValue::CredentialValue(
                    "vault".to_string(),
                    mcai_worker_sdk::job::Credential { key: "KEY".to_string() },
                ),
            },
            mcai_worker_sdk::job::Parameter {
                id: "other".to_string(),
                value: mcai_worker_sdk::job::ParameterValue::CredentialValue(
                    "vault".to_string(),
                    mcai_worker_sdk::job::Credential { key: "MISSING".to_string() },
                ),
            },
            mcai_worker_sdk::job::Parameter {
                id: "plain".to_string(),
                value: mcai_worker_sdk::job::ParameterValue::BooleanValue(true),
            },
        ],
    };
    let mut resolver = TableResolver;
    let key = "secret".to_string();
    assert_eq!(job.get_credential_value(&key, &mut resolver).unwrap(), "opensesame");
    let key = "other".to_string();
    assert!(matches!(
        job.get_credential_value(&key, &mut resolver),
        Err(mcai_worker_sdk::error::MessageError::RequirementsError(_))
    ));
    let key = "plain".to_string();
    assert!(matches!(
        job.get_credential_value(&key, &mut resolver),
        Err(mcai_worker_sdk::error::MessageError::RuntimeError(_))
    ));
}
