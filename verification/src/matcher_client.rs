use vstd::prelude::*;

use crate::codec::{parse_uuid, uuid_parse, uuid_text, uuid_to_string};
use crate::config::Settings;
use crate::error::Error;
use crate::order_processor::{plan_fits, MatchPlan, OrderProcessor, WALLET_COUNT};
use crate::spread::spread_rejected;
use crate::types::{
    MatcherBatchRequest, MatcherConnectRequest, MatcherOrderUpdate, MatcherRequest,
    MatcherResponse, SpotOrder,
};

verus! {

/// Seconds to wait after the server handed out an empty batch.
pub const EMPTY_BATCH_DELAY_SECS: u64 = 10;

/// Seconds to wait after the server said it has no orders, or answered
/// with anything but a batch.
pub const IDLE_REPLY_DELAY_SECS: u64 = 1;

/// A frame from the server, as the connection delivered it.
#[derive(Debug)]
pub enum IncomingMessage {
    /// A text frame that reads as a server reply.
    Response(MatcherResponse),
    /// A text frame that does not read as a server reply.
    Unreadable(String),
    /// The server closed the connection.
    Close,
    /// The connection failed, with this message.
    Failure(String),
    /// Any other kind of frame.
    Other,
}

/// What a processing task does with a frame.
#[derive(Debug)]
pub enum Reaction {
    /// Submit these orders for matching and send back the updates.
    ProcessOrders(Vec<SpotOrder>),
    /// Do nothing for this many seconds.
    Wait(u64),
    /// Report the unreadable text; the task ends normally.
    ReportUnreadable(String),
    /// Report an unexpected frame; the task ends normally.
    ReportUnexpected,
    /// The server closed the connection; the task ends normally.
    Closed,
    /// The task ends with this connection error.
    Failed(String),
}

fn copy_settings(s: &Settings) -> (r: Settings)
    ensures
        r == *s,
{
    Settings {
        uuid: s.uuid.clone(),
        mnemonic: s.mnemonic.clone(),
        contract_id: s.contract_id.clone(),
        websocket_url: s.websocket_url.clone(),
        chain: s.chain.clone(),
    }
}

/// A worker: its identity, its settings and the processor of its batches.
pub struct MatcherClient {
    uuid: u128,
    settings: Settings,
    order_processor: OrderProcessor,
}

impl MatcherClient {
    /// The 128-bit value of the worker's UUID.
    pub closed spec fn uuid_value(self) -> u128 {
        self.uuid
    }

    pub closed spec fn settings_of(self) -> Settings {
        self.settings
    }

    pub closed spec fn processor(self) -> OrderProcessor {
        self.order_processor
    }

    /// A worker for the given settings, whose UUID must be readable.
    pub fn new(settings: Settings) -> (c: MatcherClient)
        requires
            uuid_parse(settings.uuid@) is Some,
        ensures
            uuid_parse(settings.uuid@) == Some(c.uuid_value() as nat),
            c.settings_of() == settings,
            c.processor().settings_of() == settings,
            c.processor().wallet() == 0,
    {
        let uuid = match parse_uuid(settings.uuid.as_str()) {
            Some(v) => v,
            None => {
                proof {
                    assert(false);
                }
                0
            },
        };
        let order_processor = OrderProcessor::new(copy_settings(&settings));
        MatcherClient { uuid, settings, order_processor }
    }

    /// A worker for the given settings, `None` when its UUID is unreadable.
    pub fn try_new(settings: Settings) -> (res: Option<MatcherClient>)
        ensures
            res is None <==> uuid_parse(settings.uuid@) is None,
            res matches Some(c) ==> {
                &&& uuid_parse(settings.uuid@) == Some(c.uuid_value() as nat)
                &&& c.settings_of() == settings
                &&& c.processor().settings_of() == settings
                &&& c.processor().wallet() == 0
            },
    {
        match parse_uuid(settings.uuid.as_str()) {
            Some(_) => Some(MatcherClient::new(settings)),
            None => None,
        }
    }

    pub fn settings(&self) -> (s: &Settings)
        ensures
            *s == self.settings_of(),
    {
        &self.settings
    }

    pub fn order_processor(&self) -> (p: &OrderProcessor)
        ensures
            *p == self.processor(),
    {
        &self.order_processor
    }

    /// Prepares a batch with the worker's own processor: a refused batch
    /// changes nothing; any other takes the processor's next wallet.
    pub fn prepare_batch(&mut self, orders: &Vec<SpotOrder>) -> (res: Result<MatchPlan, Error>)
        ensures
            res is Err <==> spread_rejected(orders@),
            res matches Err(e) ==> {
                &&& e is InvalidBatch
                &&& final(self).processor().wallet() == old(self).processor().wallet()
            },
            res matches Ok(plan) ==> {
                &&& final(self).processor().wallet() == (old(self).processor().wallet() + 1) % (
                WALLET_COUNT as int)
                &&& plan_fits(old(self).processor(), orders@, plan)
            },
            final(self).processor().settings_of() == old(self).processor().settings_of(),
            final(self).uuid_value() == old(self).uuid_value(),
            final(self).settings_of() == old(self).settings_of(),
    {
        self.order_processor.prepare_batch(orders)
    }

    /// The worker's UUID in hyphenated lower-case form.
    pub fn uuid(&self) -> (s: String)
        ensures
            s@ == uuid_text(self.uuid_value()),
    {
        uuid_to_string(self.uuid)
    }

    /// The message a worker identifies itself with when it connects.
    pub fn identification_message(&self) -> (m: MatcherRequest)
        ensures
            m matches MatcherRequest::Connect(c) && c.uuid@ == uuid_text(self.uuid_value()),
    {
        MatcherRequest::Connect(MatcherConnectRequest { uuid: self.uuid() })
    }

    /// The message a worker asks for its next batch with.
    pub fn request_batch(&self) -> (m: MatcherRequest)
        ensures
            m matches MatcherRequest::BatchRequest(b) && b.uuid@ == uuid_text(self.uuid_value()),
    {
        MatcherRequest::BatchRequest(MatcherBatchRequest { uuid: self.uuid() })
    }

    /// The message that reports a processed batch: its updates, or none at
    /// all when processing failed.
    pub fn process_orders(&self, processed: Result<Vec<MatcherOrderUpdate>, Error>) -> (m: MatcherRequest)
        ensures
            m matches MatcherRequest::OrderUpdates(u) && u@ == match processed {
                Ok(v) => v@,
                Err(_) => Seq::<MatcherOrderUpdate>::empty(),
            },
    {
        let updates = match processed {
            Ok(updates) => updates,
            Err(_) => Vec::new(),
        };
        MatcherRequest::OrderUpdates(updates)
    }

    /// What to do with a frame from the server: a non-empty batch is
    /// processed; an empty one means waiting ten seconds; no orders, or any
    /// other reply, a second; a close ends the task normally and a
    /// connection error ends it with that error; anything else is reported.
    pub fn process_message(&self, message: IncomingMessage) -> (r: Reaction)
        ensures
            match message {
                IncomingMessage::Response(MatcherResponse::Batch(orders)) => if orders@.len() == 0 {
                    r == Reaction::Wait(EMPTY_BATCH_DELAY_SECS)
                } else {
                    r == Reaction::ProcessOrders(orders)
                },
                IncomingMessage::Response(_) => r == Reaction::Wait(IDLE_REPLY_DELAY_SECS),
                IncomingMessage::Unreadable(text) => r == Reaction::ReportUnreadable(text),
                IncomingMessage::Close => r == Reaction::Closed,
                IncomingMessage::Failure(e) => r == Reaction::Failed(e),
                IncomingMessage::Other => r == Reaction::ReportUnexpected,
            },
    {
        match message {
            IncomingMessage::Response(MatcherResponse::Batch(orders)) => {
                if orders.len() == 0 {
                    Reaction::Wait(EMPTY_BATCH_DELAY_SECS)
                } else {
                    Reaction::ProcessOrders(orders)
                }
            },
            IncomingMessage::Response(MatcherResponse::NoOrders) => Reaction::Wait(IDLE_REPLY_DELAY_SECS),
            IncomingMessage::Response(_) => Reaction::Wait(IDLE_REPLY_DELAY_SECS),
            IncomingMessage::Unreadable(text) => Reaction::ReportUnreadable(text),
            IncomingMessage::Close => Reaction::Closed,
            IncomingMessage::Failure(e) => Reaction::Failed(e),
            IncomingMessage::Other => Reaction::ReportUnexpected,
        }
    }
}

} // verus!
