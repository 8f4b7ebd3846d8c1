//! One connection in the race: when to connect, subscribe, receive, pause and stop.
//!
//! Times are nanoseconds since one fixed moment, by a clock that never goes back.

use crate::endpoints;
use crate::endpoints::subscribe_message;
use crate::json;
use crate::payload;
use crate::payload::{extract_update_id, WsMessage};
use crate::race::{Endpoint, EndpointModel};
use vstd::prelude::*;
use vstd::utf8::*;

verus! {

/// How long to wait for a message before the time is taken again.
pub const RECV_TIMEOUT_MS: u64 = 2000;

/// The pause after a connection broke or a subscription failed.
pub const RETRY_PAUSE_MS: u64 = 200;

/// The pause after a connection could not be made.
pub const CONNECT_PAUSE_MS: u64 = 300;

/// What happened to a connection.
pub enum RacerEvent {
    /// The time was taken before connecting.
    ConnectDue { now: u128 },
    /// The connection was made.
    Connected,
    /// The connection could not be made.
    ConnectFailed,
    /// The subscription was sent.
    Subscribed,
    /// The subscription could not be sent.
    SubscribeFailed,
    /// The time was taken before receiving.
    ReceiveDue { now: u128 },
    /// A message came in.
    Received { message: WsMessage, now: u128 },
    /// Receiving failed, or the other side closed the connection.
    Broken,
    /// Nothing came in for a while.
    TimedOut,
}

/// What to do next, as mathematics.
pub enum RacerActionModel {
    Connect,
    Subscribe { text: Seq<char> },
    CheckReceive,
    Receive,
    Record { u: u64, now: u128 },
    Pause { millis: u64 },
    Return,
}

/// What to do next.
pub enum RacerAction {
    /// Connect.
    Connect,
    /// Send the subscription.
    Subscribe { text: String },
    /// Take the time before receiving.
    CheckReceive,
    /// Wait for a message.
    Receive,
    /// Record the delivery, then go on as for `CheckReceive`.
    Record { u: u64, now: u128 },
    /// Pause, give up the connection, if any, then take the time before connecting.
    Pause { millis: u64 },
    /// Stop for good.
    Return,
}

impl View for RacerAction {
    type V = RacerActionModel;

    open spec fn view(&self) -> RacerActionModel {
        match *self {
            RacerAction::Connect => RacerActionModel::Connect,
            RacerAction::Subscribe { text } => RacerActionModel::Subscribe { text: text@ },
            RacerAction::CheckReceive => RacerActionModel::CheckReceive,
            RacerAction::Receive => RacerActionModel::Receive,
            RacerAction::Record { u, now } => RacerActionModel::Record { u, now },
            RacerAction::Pause { millis } => RacerActionModel::Pause { millis },
            RacerAction::Return => RacerActionModel::Return,
        }
    }
}

/// The state of one connection, as mathematics.
pub struct RacerModel {
    pub stream_name: Seq<char>,
    pub use_subscribe: bool,
    pub message_id: u64,
    pub deadline: u128,
}

/// The state of one connection.
pub struct Racer {
    pub stream_name: String,
    pub use_subscribe: bool,
    pub message_id: u64,
    pub deadline: u128,
}

impl View for Racer {
    type V = RacerModel;

    open spec fn view(&self) -> RacerModel {
        RacerModel {
            stream_name: self.stream_name@,
            use_subscribe: self.use_subscribe,
            message_id: self.message_id,
            deadline: self.deadline,
        }
    }
}

/// Whether a subscription is about to be sent.
pub open spec fn sends_subscription(state: RacerModel, event: RacerEvent) -> bool {
    event is Connected && state.use_subscribe
}

/// The state after an event.
pub open spec fn racer_next(state: RacerModel, event: RacerEvent) -> RacerModel {
    RacerModel {
        message_id: if sends_subscription(state, event) {
            (state.message_id + 1) as u64
        } else {
            state.message_id
        },
        ..state
    }
}

/// What to do after an event.
pub open spec fn racer_action(state: RacerModel, event: RacerEvent) -> RacerActionModel {
    match event {
        RacerEvent::ConnectDue { now } => if now < state.deadline {
            RacerActionModel::Connect
        } else {
            RacerActionModel::Return
        },
        RacerEvent::Connected => if state.use_subscribe {
            RacerActionModel::Subscribe {
                text: json::object_json(
                    endpoints::subscribe_members(state.stream_name, state.message_id),
                ),
            }
        } else {
            RacerActionModel::CheckReceive
        },
        RacerEvent::ConnectFailed => RacerActionModel::Pause { millis: CONNECT_PAUSE_MS },
        RacerEvent::Subscribed => RacerActionModel::CheckReceive,
        RacerEvent::SubscribeFailed => RacerActionModel::Pause { millis: RETRY_PAUSE_MS },
        RacerEvent::ReceiveDue { now } => if now >= state.deadline {
            RacerActionModel::Return
        } else {
            RacerActionModel::Receive
        },
        RacerEvent::Received { message, now } => match payload::message_update_id(
            message,
            state.use_subscribe,
        ) {
            Some(u) => RacerActionModel::Record { u, now },
            None => RacerActionModel::CheckReceive,
        },
        RacerEvent::Broken => RacerActionModel::Pause { millis: RETRY_PAUSE_MS },
        RacerEvent::TimedOut => RacerActionModel::CheckReceive,
    }
}

impl Racer {
    /// A connection to an endpoint, until a deadline.
    pub fn new(endpoint: &Endpoint, deadline: u128) -> (r: Racer)
        ensures
            r@ == (RacerModel {
                stream_name: endpoint@.stream_name,
                use_subscribe: endpoint@.use_subscribe,
                message_id: 1,
                deadline,
            }),
            r@ == racer_start(endpoint@, deadline),
    {
        Racer {
            stream_name: endpoint.stream_name.clone(),
            use_subscribe: endpoint.use_subscribe,
            message_id: 1,
            deadline,
        }
    }

    /// Takes an event in and says what to do.
    pub fn step(&mut self, event: RacerEvent) -> (r: RacerAction)
        requires
            sends_subscription(old(self)@, event) ==> old(self).message_id < u64::MAX,
        ensures
            final(self)@ == racer_next(old(self)@, event),
            r@ == racer_action(old(self)@, event),
            sends_subscription(old(self)@, event) && json::is_plain(old(self)@.stream_name)
                ==> r@ == (RacerActionModel::Subscribe {
                text: endpoints::subscribe_text(old(self)@.stream_name, old(self).message_id),
            }),
    {
        match event {
            RacerEvent::ConnectDue { now } => if now < self.deadline {
                RacerAction::Connect
            } else {
                RacerAction::Return
            },
            RacerEvent::Connected => if self.use_subscribe {
                let text = subscribe_message(self.stream_name.as_str(), self.message_id);
                self.message_id = self.message_id + 1;
                RacerAction::Subscribe { text }
            } else {
                RacerAction::CheckReceive
            },
            RacerEvent::ConnectFailed => RacerAction::Pause { millis: CONNECT_PAUSE_MS },
            RacerEvent::Subscribed => RacerAction::CheckReceive,
            RacerEvent::SubscribeFailed => RacerAction::Pause { millis: RETRY_PAUSE_MS },
            RacerEvent::ReceiveDue { now } => if now >= self.deadline {
                RacerAction::Return
            } else {
                RacerAction::Receive
            },
            RacerEvent::Received { message, now } => match extract_update_id(
                message,
                self.use_subscribe,
            ) {
                Some(u) => RacerAction::Record { u, now },
                None => RacerAction::CheckReceive,
            },
            RacerEvent::Broken => RacerAction::Pause { millis: RETRY_PAUSE_MS },
            RacerEvent::TimedOut => RacerAction::CheckReceive,
        }
    }
}

/// The state after a run of events.
pub open spec fn racer_after(state: RacerModel, events: Seq<RacerEvent>) -> RacerModel
    decreases events.len(),
{
    if events.len() == 0 {
        state
    } else {
        racer_next(racer_after(state, events.drop_last()), events.last())
    }
}

/// Whatever happened before, once the deadline has passed a connection neither connects nor
/// receives any more: it stops when it next takes the time.
pub proof fn law_deadline_ends_the_race(state: RacerModel, events: Seq<RacerEvent>, now: u128)
    requires
        now >= state.deadline,
    ensures
        racer_action(racer_after(state, events), RacerEvent::ConnectDue { now })
            == RacerActionModel::Return,
        racer_action(racer_after(state, events), RacerEvent::ReceiveDue { now })
            == RacerActionModel::Return,
    decreases events.len(),
{
    if events.len() > 0 {
        law_deadline_ends_the_race(state, events.drop_last(), now);
    }
}

/// Before the deadline a connection of the race connects and receives whenever it takes the time,
/// and starts over after every failure: after a failed connect with a pause of 300 milliseconds,
/// else with one of 200.
pub proof fn law_race_goes_on_until_the_deadline(state: RacerModel, now: u128)
    requires
        now < state.deadline,
    ensures
        racer_action(state, RacerEvent::ConnectDue { now }) == RacerActionModel::Connect,
        racer_action(state, RacerEvent::ReceiveDue { now }) == RacerActionModel::Receive,
        racer_action(state, RacerEvent::ConnectFailed) == (RacerActionModel::Pause { millis: 300 }),
        racer_action(state, RacerEvent::SubscribeFailed) == (RacerActionModel::Pause {
            millis: 200,
        }),
        racer_action(state, RacerEvent::Broken) == (RacerActionModel::Pause { millis: 200 }),
        racer_action(state, RacerEvent::TimedOut) == RacerActionModel::CheckReceive,
        racer_action(state, RacerEvent::Subscribed) == RacerActionModel::CheckReceive,
        !state.use_subscribe ==> racer_action(state, RacerEvent::Connected)
            == RacerActionModel::CheckReceive,
{
}

/// A text message with a book ticker in it is recorded under its update id and the time at which
/// it came, whatever that is; where the streams are combined the ticker stands in `data`.
pub proof fn law_ticker_is_recorded(
    state: RacerModel,
    text: String,
    document: json::JsonModel,
    book: json::JsonModel,
    u: u64,
    number: (Option<i64>, Option<u64>),
    now: u128,
)
    requires
        json::parsed_json(encode_utf8(text@)) == Some(document),
        state.use_subscribe ==> json::member(document, "data"@) == Some(book),
        !state.use_subscribe ==> document == book,
        json::member(book, "u"@) == Some(
            json::JsonModel::Number { unsigned: Some(u), signed: number.0, float_bits: number.1 },
        ),
    ensures
        racer_action(state, RacerEvent::Received { message: WsMessage::Text(text), now }) == (
        RacerActionModel::Record { u, now }),
{
}

/// A control frame, and a message that is no JSON, is not recorded.
pub proof fn law_nothing_else_is_recorded(state: RacerModel, bytes: Vec<u8>, now: u128)
    requires
        json::parsed_json(bytes@) is None,
    ensures
        racer_action(state, RacerEvent::Received { message: WsMessage::Other, now })
            == RacerActionModel::CheckReceive,
        racer_action(state, RacerEvent::Received { message: WsMessage::Binary(bytes), now })
            == RacerActionModel::CheckReceive,
{
}

/// How many connections were made in a run of events.
pub open spec fn connections_made(events: Seq<RacerEvent>) -> nat
    decreases events.len(),
{
    if events.len() == 0 {
        0
    } else {
        connections_made(events.drop_last()) + if events.last() is Connected {
            1nat
        } else {
            0nat
        }
    }
}

/// On the combined endpoint each connection that is made subscribes to the stream, with a number
/// one higher than the one before; the deadline and the stream never change.
pub proof fn law_race_subscriptions_are_numbered(state: RacerModel, events: Seq<RacerEvent>)
    requires
        state.use_subscribe,
        state.message_id + connections_made(events) <= u64::MAX,
    ensures
        ({
            let after = racer_after(state, events);
            &&& after.deadline == state.deadline
            &&& after.stream_name == state.stream_name
            &&& after.use_subscribe
            &&& after.message_id == state.message_id + connections_made(events)
            &&& racer_action(after, RacerEvent::Connected) == (RacerActionModel::Subscribe {
                text: json::object_json(
                    seq![
                        ("id"@, json::FieldModel::Unsigned(after.message_id)),
                        ("method"@, json::FieldModel::Text("SUBSCRIBE"@)),
                        ("params"@, json::FieldModel::Texts(seq![state.stream_name])),
                    ],
                ),
            })
        }),
    decreases events.len(),
{
    if events.len() > 0 {
        law_race_subscriptions_are_numbered(state, events.drop_last());
    }
}

/// A message is recorded exactly where it has an update id, under that id and at the time at
/// which it came; the ticker is looked for in `data` exactly where streams are taken by request.
pub proof fn law_messages_with_an_id_are_recorded(
    state: RacerModel,
    message: WsMessage,
    now: u128,
    u: u64,
)
    ensures
        payload::message_update_id(message, state.use_subscribe) == Some(u) ==> racer_action(
            state,
            RacerEvent::Received { message, now },
        ) == (RacerActionModel::Record { u, now }),
        payload::message_update_id(message, state.use_subscribe) is None ==> racer_action(
            state,
            RacerEvent::Received { message, now },
        ) == RacerActionModel::CheckReceive,
        racer_next(state, RacerEvent::Received { message, now }) == state,
{
}

/// A connection waits two seconds for a message before it takes the time again.
pub proof fn law_receive_waits_two_seconds()
    ensures
        RECV_TIMEOUT_MS == 2000,
{
}

/// A connection to an endpoint at its start.
pub open spec fn racer_start(endpoint: EndpointModel, deadline: u128) -> RacerModel {
    RacerModel {
        stream_name: endpoint.stream_name,
        use_subscribe: endpoint.use_subscribe,
        message_id: 1,
        deadline,
    }
}

/// A connection starts with the stream of its endpoint, the deadline as it is given and the first
/// number, and subscribes exactly where its endpoint takes streams by request.
pub proof fn law_racer_starts_with_its_endpoint(endpoint: EndpointModel, deadline: u128)
    ensures
        racer_start(endpoint, deadline).deadline == deadline,
        racer_start(endpoint, deadline).stream_name == endpoint.stream_name,
        racer_start(endpoint, deadline).use_subscribe <==> endpoint.use_subscribe,
        racer_start(endpoint, deadline).message_id == 1,
{
}

} // verus!
