use mcai_worker_sdk::error::MessageError;
use mcai_worker_sdk::job::{Job, JobResult, JobStatus, Parameter, ParameterValue, ProgressionSink, Requirement};
use mcai_worker_sdk::job::{publish_job_progression, JobProgression};
use mcai_worker_sdk::message_exchange::{DeliveryAction, LocalExchange, OrderMessage, ResponseMessage};
use mcai_worker_sdk::processor::{close_started, first_missing_path, PathProbe, Processor};
use mcai_worker_sdk::worker::{MessageEvent, Version};

struct AllPathsExist;

impl PathProbe for AllPathsExist {
    fn path_exists(&mut self, _path: &String) -> bool {
        true
    }
}

struct NoPathExists;

impl PathProbe for NoPathExists {
    fn path_exists(&mut self, _path: &String) -> bool {
        false
    }
}

struct DefaultEvent;

impl MessageEvent for DefaultEvent {
    fn get_name(&self) -> String {
        "sample".to_string()
    }
    fn get_short_description(&self) -> String {
        "short".to_string()
    }
    fn get_description(&self) -> String {
        "long".to_string()
    }
    fn get_version(&self) -> Version {
        Version::new(0, 0, 1)
    }
}

struct SucceedingEvent;

impl MessageEvent for SucceedingEvent {
    fn get_name(&self) -> String {
        "sample".to_string()
    }
    fn get_short_description(&self) -> String {
        "short".to_string()
    }
    fn get_description(&self) -> String {
        "long".to_string()
    }
    fn get_version(&self) -> Version {
        Version::new(0, 0, 1)
    }
    fn process(
        &mut self,
        _sink: &mut ProgressionSink,
        _job: &Job,
        job_result: JobResult,
    ) -> Result<JobResult, MessageError> {
        Ok(job_result.with_status(JobStatus::Completed))
    }
}

struct ProgressingEvent;

impl MessageEvent for ProgressingEvent {
    fn get_name(&self) -> String {
        "sample".to_string()
    }
    fn get_short_description(&self) -> String {
        "short".to_string()
    }
    fn get_description(&self) -> String {
        "long".to_string()
    }
    fn get_version(&self) -> Version {
        Version::new(0, 0, 1)
    }
    fn process(
        &mut self,
        sink: &mut ProgressionSink,
        job: &Job,
        job_result: JobResult,
    ) -> Result<JobResult, MessageError> {
        publish_job_progression(sink, job.job_id, 25).unwrap();
        publish_job_progression(sink, job.job_id, 50).unwrap();
        publish_job_progression(sink, job.job_id, 100).unwrap();
        Ok(job_result)
    }
}

struct TrackingEvent {
    called: bool,
}

impl MessageEvent for TrackingEvent {
    fn get_name(&self) -> String {
        "sample".to_string()
    }
    fn get_short_description(&self) -> String {
        "short".to_string()
    }
    fn get_description(&self) -> String {
        "long".to_string()
    }
    fn get_version(&self) -> Version {
        Version::new(0, 0, 1)
    }
    fn process(
        &mut self,
        _sink: &mut ProgressionSink,
        _job: &Job,
        job_result: JobResult,
    ) -> Result<JobResult, MessageError> {
        self.called = true;
        Ok(job_result)
    }
}

fn empty_job(id: u64) -> Job {
    Job { job_id: id, parameters: vec![] }
}

#[test]
fn empty_message_event_impl() {
    #[derive(Debug)]
    struct CustomEvent {}

    impl MessageEvent for CustomEvent {
        fn get_name(&self) -> String {
            "custom".to_string()
        }
        fn get_short_description(&self) -> String {
            "short description".to_string()
        }
        fn get_description(&self) -> String {
            "long description".to_string()
        }
        fn get_version(&self) -> Version {
            Version::new(1, 2, 3)
        }
    }

    let mut custom_event = CustomEvent {};

    let job = Job { job_id: 1234, parameters: vec![] };

    let job_result = JobResult::new(job.job_id);
    let mut sink = ProgressionSink::new();

    let result = custom_event.process(&mut sink, &job, job_result);
    assert!(result == Err(MessageError::NotImplemented()));
}

#[test]
fn no_op_handler_rejects_with_requeue() {
    let mut processor = Processor::new();
    let mut handler = DefaultEvent;
    let mut probe = AllPathsExist;
    let outcome = processor.execute_job(&mut handler, &mut probe, empty_job(1));
    assert_eq!(outcome.responses.len(), 3);
    assert!(matches!(outcome.responses[0], ResponseMessage::Initialized(_)));
    assert!(matches!(outcome.responses[1], ResponseMessage::Started(_)));
    assert!(matches!(
        outcome.responses[2],
        ResponseMessage::Error(MessageError::NotImplemented())
    ));
    assert!(!outcome
        .responses
        .iter()
        .any(|r| matches!(r, ResponseMessage::Completed(_))));
    assert_eq!(outcome.delivery, DeliveryAction::Reject(true));
}

#[test]
fn successful_trivial_job() {
    let mut processor = Processor::new();
    let mut handler = SucceedingEvent;
    let mut probe = AllPathsExist;
    let outcome = processor.execute_job(&mut handler, &mut probe, empty_job(1));
    assert_eq!(outcome.responses.len(), 3);
    match &outcome.responses[0] {
        ResponseMessage::Initialized(jr) => assert_eq!(jr.job_id, 1),
        other => panic!("expected Initialized, got {:?}", other),
    }
    match &outcome.responses[1] {
        ResponseMessage::Started(jr) => assert_eq!(jr.job_id, 1),
        other => panic!("expected Started, got {:?}", other),
    }
    match &outcome.responses[2] {
        ResponseMessage::Completed(jr) => {
            assert_eq!(jr.job_id, 1);
            assert_eq!(jr.status, JobStatus::Completed);
        },
        other => panic!("expected Completed, got {:?}", other),
    }
    assert_eq!(outcome.delivery, DeliveryAction::Ack);
    assert!(!processor.has_job(1));
}

#[test]
fn progression_between_started_and_completed() {
    let mut processor = Processor::new();
    let mut handler = ProgressingEvent;
    let mut probe = AllPathsExist;
    let outcome = processor.execute_job(&mut handler, &mut probe, empty_job(1));
    assert_eq!(outcome.responses.len(), 6);
    assert!(matches!(outcome.responses[0], ResponseMessage::Initialized(_)));
    assert!(matches!(outcome.responses[1], ResponseMessage::Started(_)));
    let expected = [25u8, 50, 100];
    for (k, want) in expected.iter().enumerate() {
        match &outcome.responses[2 + k] {
            ResponseMessage::Progression(p) => {
                assert_eq!(p.job_id, 1);
                assert_eq!(p.progress, *want);
            },
            other => panic!("expected Progression, got {:?}", other),
        }
    }
    assert!(matches!(outcome.responses[5], ResponseMessage::Completed(_)));
}

#[test]
fn requirements_miss_rejects_and_skips_handler() {
    let mut processor = Processor::new();
    let mut handler = TrackingEvent { called: false };
    let mut probe = NoPathExists;
    let job = Job {
        job_id: 1,
        parameters: vec![Parameter {
            id: "requirements".to_string(),
            value: ParameterValue::Requirements(Requirement {
                paths: vec!["/does/not/exist".to_string()],
            }),
        }],
    };
    let outcome = processor.execute_job(&mut handler, &mut probe, job);
    assert_eq!(outcome.responses.len(), 1);
    assert!(matches!(
        outcome.responses[0],
        ResponseMessage::Error(MessageError::RequirementsError(_))
    ));
    assert_eq!(outcome.delivery, DeliveryAction::Reject(true));
    assert!(!handler.called);
    assert!(!processor.has_job(1));
}

#[test]
fn stop_process_before_start_is_no_op_acknowledged() {
    let mut processor = Processor::new();
    let mut handler = SucceedingEvent;
    let mut probe = AllPathsExist;
    let init = processor.handle_order(&mut handler, &mut probe, OrderMessage::InitProcess(empty_job(7)));
    assert!(matches!(init.responses[0], ResponseMessage::Initialized(_)));
    let stop = processor.handle_order(&mut handler, &mut probe, OrderMessage::StopProcess(empty_job(7)));
    assert!(stop.responses.is_empty());
    assert_eq!(stop.delivery, DeliveryAction::Ack);
    assert!(!stop.stop_worker);
    // the job is still admitted and can be started afterwards
    assert!(processor.has_job(7));
}

#[test]
fn second_init_same_job_id_is_runtime_error() {
    let mut processor = Processor::new();
    let mut handler = SucceedingEvent;
    let mut probe = AllPathsExist;
    let first = processor.handle_order(&mut handler, &mut probe, OrderMessage::InitProcess(empty_job(9)));
    assert!(matches!(first.responses[0], ResponseMessage::Initialized(_)));
    let second = processor.handle_order(&mut handler, &mut probe, OrderMessage::InitProcess(empty_job(9)));
    assert_eq!(second.responses.len(), 1);
    assert!(matches!(
        second.responses[0],
        ResponseMessage::Error(MessageError::RuntimeError(_))
    ));
    assert_eq!(second.delivery, DeliveryAction::Ack);
}

#[test]
fn stop_worker_order_stops_the_loop() {
    let mut processor = Processor::new();
    let mut handler = SucceedingEvent;
    let mut probe = AllPathsExist;
    let outcome = processor.handle_order(&mut handler, &mut probe, OrderMessage::StopWorker);
    assert!(outcome.stop_worker);
    assert!(outcome.responses.is_empty());
    assert_eq!(outcome.delivery, DeliveryAction::Ack);
}

#[test]
fn local_replay_emits_terminal_responses_in_order() {
    let mut exchange = LocalExchange::new();
    let mut processor = Processor::new();
    let mut handler = SucceedingEvent;
    let mut probe = AllPathsExist;

    processor.replay_job(&mut exchange, &mut handler, &mut probe, empty_job(1));
    processor.replay_job(&mut exchange, &mut handler, &mut probe, empty_job(2));

    let mut seen: Vec<ResponseMessage> = vec![];
    while let Some(r) = exchange.next_response() {
        seen.push(r);
    }
    assert_eq!(seen.len(), 6);
    for (k, id) in [(0usize, 1u64), (3, 2)] {
        assert!(matches!(&seen[k], ResponseMessage::Initialized(jr) if jr.job_id == id));
        assert!(matches!(&seen[k + 1], ResponseMessage::Started(jr) if jr.job_id == id));
        assert!(matches!(&seen[k + 2], ResponseMessage::Completed(jr) if jr.job_id == id));
    }
}

#[test]
fn run_local_decides_every_delivery_once() {
    let mut exchange = LocalExchange::new();
    exchange.send_order(OrderMessage::InitProcess(empty_job(1))).unwrap();
    exchange.send_order(OrderMessage::StartProcess(empty_job(1))).unwrap();
    exchange.send_order(OrderMessage::Status(empty_job(5))).unwrap();
    exchange.send_order(OrderMessage::StopWorker).unwrap();
    exchange.send_order(OrderMessage::InitProcess(empty_job(3))).unwrap();

    let mut processor = Processor::new();
    let mut handler = SucceedingEvent;
    let mut probe = AllPathsExist;
    let (acks, stopped) = processor.run_local(&mut exchange, &mut handler, &mut probe);
    // four orders consumed (the loop stops at StopWorker), each decided once
    assert_eq!(acks.len(), 4);
    assert!(stopped);
}

#[test]
fn status_of_unknown_job_is_runtime_error() {
    let mut processor = Processor::new();
    let mut handler = SucceedingEvent;
    let mut probe = AllPathsExist;
    let outcome = processor.handle_order(&mut handler, &mut probe, OrderMessage::Status(empty_job(42)));
    assert_eq!(outcome.responses.len(), 1);
    assert!(matches!(
        outcome.responses[0],
        ResponseMessage::Error(MessageError::RuntimeError(_))
    ));
}

#[test]
fn status_of_admitted_job_reports_progression() {
    let mut processor = Processor::new();
    let mut handler = SucceedingEvent;
    let mut probe = AllPathsExist;
    processor.handle_order(&mut handler, &mut probe, OrderMessage::InitProcess(empty_job(4)));
    let outcome = processor.handle_order(&mut handler, &mut probe, OrderMessage::Status(empty_job(4)));
    match &outcome.responses[0] {
        ResponseMessage::Progression(p) => {
            assert_eq!(p.job_id, 4);
            // the recorded progression is the value at admission
            assert_eq!(p.progress, 0);
        },
        other => panic!("expected Progression, got {:?}", other),
    }
}

#[test]
fn progression_clamp_boundaries() {
    let mut sink = ProgressionSink::new();
    publish_job_progression(&mut sink, 1, -5).unwrap();
    publish_job_progression(&mut sink, 1, 0).unwrap();
    publish_job_progression(&mut sink, 1, 50).unwrap();
    publish_job_progression(&mut sink, 1, 100).unwrap();
    publish_job_progression(&mut sink, 1, 150).unwrap();
    let items = sink.take_items();
    let got: Vec<u8> = items.iter().map(|p| p.progress).collect();
    assert_eq!(got, vec![0, 0, 50, 100, 100]);
    assert!(items.iter().all(|p| p.progress <= 100));
}

#[test]
fn processing_error_is_acknowledged() {
    struct FailingEvent;
    impl MessageEvent for FailingEvent {
        fn get_name(&self) -> String {
            "sample".to_string()
        }
        fn get_short_description(&self) -> String {
            "short".to_string()
        }
        fn get_description(&self) -> String {
            "long".to_string()
        }
        fn get_version(&self) -> Version {
            Version::new(0, 0, 1)
        }
        fn process(
            &mut self,
            _sink: &mut ProgressionSink,
            job: &Job,
            _job_result: JobResult,
        ) -> Result<JobResult, MessageError> {
            Err(MessageError::ProcessingError(job.job_id, "boom".to_string()))
        }
    }
    let mut processor = Processor::new();
    let mut handler = FailingEvent;
    let mut probe = AllPathsExist;
    let outcome = processor.execute_job(&mut handler, &mut probe, empty_job(8));
    assert!(matches!(
        outcome.responses.last().unwrap(),
        ResponseMessage::Error(MessageError::ProcessingError(8, _))
    ));
    assert_eq!(outcome.delivery, DeliveryAction::Ack);
}

#[test]
fn close_out_maps_handler_outcomes_exactly() {
    let reports = vec![
        JobProgression { job_id: 5, progress: 10, datetime: "t1".to_string() },
        JobProgression { job_id: 5, progress: 90, datetime: "t2".to_string() },
    ];
    // a handler result naming the wrong job comes back under the right one
    let mut handler_result = JobResult::new(7);
    handler_result.datetime = "t3".to_string();
    let (responses, delivery) = close_started(5, reports, Ok(handler_result));
    assert_eq!(responses.len(), 4);
    assert!(matches!(&responses[0], ResponseMessage::Started(jr) if jr.job_id == 5));
    assert!(matches!(&responses[1], ResponseMessage::Progression(p) if p.progress == 10));
    assert!(matches!(&responses[2], ResponseMessage::Progression(p) if p.progress == 90));
    match &responses[3] {
        ResponseMessage::Completed(jr) => {
            assert_eq!(jr.job_id, 5);
            assert_eq!(jr.status, JobStatus::Completed);
            assert_eq!(jr.datetime, "t3");
        },
        other => panic!("expected Completed, got {:?}", other),
    }
    assert_eq!(delivery, DeliveryAction::Ack);

    let (responses, delivery) = close_started(5, vec![], Err(MessageError::NotImplemented()));
    assert_eq!(responses.len(), 2);
    assert!(matches!(&responses[1], ResponseMessage::Error(MessageError::NotImplemented())));
    assert_eq!(delivery, DeliveryAction::Reject(true));

    let (responses, delivery) = close_started(5, vec![], Err(MessageError::ProcessingError(5, "boom".to_string())));
    assert!(matches!(&responses[1], ResponseMessage::Error(MessageError::ProcessingError(5, _))));
    assert_eq!(delivery, DeliveryAction::Ack);
}

#[test]
fn first_missing_path_decides_over_answers() {
    let paths = vec!["/a".to_string(), "/b".to_string(), "/c".to_string()];
    assert_eq!(first_missing_path(&paths, &vec![true, true, true]), None);
    assert_eq!(
        first_missing_path(&paths, &vec![true, false, false]),
        Some("/b".to_string())
    );
    assert_eq!(first_missing_path(&vec![], &vec![]), None);
}
