//! The two directions of messages between the exchange and the processor,
//! the per-delivery acknowledgement decision, outbound routing, and the
//! in-process exchange used for replaying saved orders.

use vstd::prelude::*;

use crate::error::MessageError;
use crate::job::{Job, JobProgression, JobResult};
use crate::worker::WorkerConfiguration;

verus! {

/// An inbound order consumed by the processor.
#[derive(Debug)]
pub enum OrderMessage {
    /// Validate the job and admit it; requirements are checked first.
    InitProcess(Job),
    /// Run the processing body of an admitted job.
    StartProcess(Job),
    /// Terminate the named job cooperatively.
    StopProcess(Job),
    /// Ask for the last known progression of the named job.
    Status(Job),
    /// Terminate the worker process gracefully.
    StopWorker,
}

/// An outbound response produced by the processor.
#[derive(Debug)]
pub enum ResponseMessage {
    Initialized(JobResult),
    Started(JobResult),
    Completed(JobResult),
    Progression(JobProgression),
    Error(MessageError),
    WorkerCreated(WorkerConfiguration),
    WorkerInitialized(JobResult),
    WorkerStarted(JobResult),
}

/// A response that ends the life of a job inside the worker.
pub open spec fn spec_is_terminal(r: ResponseMessage) -> bool {
    r is Completed || r is Error
}

/// What becomes of the delivery that carried an order: it is acknowledged or
/// rejected, exactly once; a rejection says whether the broker should
/// requeue.
#[derive(Debug, Clone, Copy, PartialEq, Eq, Structural)]
pub enum DeliveryAction {
    Ack,
    Reject(bool),
}

/// Where an outbound response is published.
#[derive(Debug, Clone, Copy, PartialEq, Eq, Structural)]
pub enum ResponseDestination {
    /// The queue of terminal results of successful jobs.
    CompletedQueue,
    /// The queue of terminal results of failed jobs.
    ErrorQueue,
    /// The progression routing key on the worker exchange.
    ProgressionExchange,
    /// The per-job lifecycle exchange, routing key = worker name.
    WorkerResponseExchange,
    /// The worker lifecycle exchange, routing key = worker name.
    WorkerStatusExchange,
    /// Not published: the delivery decision alone carries the outcome.
    NotPublished,
}

/// The outbound routing rule of the broker-backed exchange.
pub open spec fn spec_response_destination(r: ResponseMessage) -> ResponseDestination {
    match r {
        ResponseMessage::Initialized(_) => ResponseDestination::WorkerResponseExchange,
        ResponseMessage::Started(_) => ResponseDestination::WorkerResponseExchange,
        ResponseMessage::Completed(_) => ResponseDestination::CompletedQueue,
        ResponseMessage::Progression(_) => ResponseDestination::ProgressionExchange,
        ResponseMessage::Error(e) => match e {
            MessageError::RequirementsError(_) => ResponseDestination::NotPublished,
            MessageError::NotImplemented() => ResponseDestination::NotPublished,
            _ => ResponseDestination::ErrorQueue,
        },
        ResponseMessage::WorkerCreated(_) => ResponseDestination::WorkerStatusExchange,
        ResponseMessage::WorkerInitialized(_) => ResponseDestination::WorkerStatusExchange,
        ResponseMessage::WorkerStarted(_) => ResponseDestination::WorkerStatusExchange,
    }
}

/// Decides where a response is published. Requirements and not-implemented
/// errors are not published at all: rejecting the source delivery with a
/// requeue hint carries the outcome back to the broker.
pub fn response_destination(r: &ResponseMessage) -> (d: ResponseDestination)
    ensures
        d == spec_response_destination(*r),
{
    match r {
        ResponseMessage::Initialized(_) => ResponseDestination::WorkerResponseExchange,
        ResponseMessage::Started(_) => ResponseDestination::WorkerResponseExchange,
        ResponseMessage::Completed(_) => ResponseDestination::CompletedQueue,
        ResponseMessage::Progression(_) => ResponseDestination::ProgressionExchange,
        ResponseMessage::Error(e) => match e {
            MessageError::RequirementsError(_) => ResponseDestination::NotPublished,
            MessageError::NotImplemented() => ResponseDestination::NotPublished,
            _ => ResponseDestination::ErrorQueue,
        },
        ResponseMessage::WorkerCreated(_) => ResponseDestination::WorkerStatusExchange,
        ResponseMessage::WorkerInitialized(_) => ResponseDestination::WorkerStatusExchange,
        ResponseMessage::WorkerStarted(_) => ResponseDestination::WorkerStatusExchange,
    }
}

/// The in-process exchange: two FIFO queues, orders in and responses out.
/// It carries the same messages as the broker-backed exchange, without any
/// transport underneath, and is used to replay saved orders.
#[derive(Debug)]
pub struct LocalExchange {
    orders: Vec<OrderMessage>,
    responses: Vec<ResponseMessage>,
}

impl LocalExchange {
    /// The queued orders, oldest first.
    pub closed spec fn orders(&self) -> Seq<OrderMessage> {
        self.orders@
    }

    /// The queued responses, oldest first.
    pub closed spec fn responses(&self) -> Seq<ResponseMessage> {
        self.responses@
    }

    /// An exchange with both queues empty.
    pub fn new() -> (e: LocalExchange)
        ensures
            e.orders().len() == 0,
            e.responses().len() == 0,
    {
        LocalExchange { orders: Vec::new(), responses: Vec::new() }
    }

    /// Queues one order; nothing else changes.
    pub fn send_order(&mut self, order: OrderMessage) -> (r: Result<(), MessageError>)
        ensures
            r is Ok,
            final(self).orders() == old(self).orders().push(order),
            final(self).responses() == old(self).responses(),
    {
        self.orders.push(order);
        Ok(())
    }

    /// Hands the oldest queued order out, if any.
    pub fn next_order(&mut self) -> (r: Option<OrderMessage>)
        ensures
            old(self).orders().len() == 0 ==> r is None && *final(self) == *old(self),
            old(self).orders().len() > 0 ==> {
                &&& r == Some(old(self).orders()[0])
                &&& final(self).orders() == old(self).orders().skip(1)
                &&& final(self).responses() == old(self).responses()
            },
    {
        if self.orders.len() == 0 {
            None
        } else {
            let order = self.orders.remove(0);
            proof {
                assert(self.orders@ =~= old(self).orders().skip(1));
            }
            Some(order)
        }
    }

    /// Queues one response; nothing else changes.
    pub fn send_response(&mut self, response: ResponseMessage) -> (r: Result<(), MessageError>)
        ensures
            r is Ok,
            final(self).responses() == old(self).responses().push(response),
            final(self).orders() == old(self).orders(),
    {
        self.responses.push(response);
        Ok(())
    }

    /// Hands the oldest queued response out, if any.
    pub fn next_response(&mut self) -> (r: Option<ResponseMessage>)
        ensures
            old(self).responses().len() == 0 ==> r is None && *final(self) == *old(self),
            old(self).responses().len() > 0 ==> {
                &&& r == Some(old(self).responses()[0])
                &&& final(self).responses() == old(self).responses().skip(1)
                &&& final(self).orders() == old(self).orders()
            },
    {
        if self.responses.len() == 0 {
            None
        } else {
            let response = self.responses.remove(0);
            proof {
                assert(self.responses@ =~= old(self).responses().skip(1));
            }
            Some(response)
        }
    }
}

} // verus!
