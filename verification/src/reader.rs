//! The reading side of a connection: when to connect, subscribe, receive, pause and stop.
//!
//! Times are nanoseconds since one fixed moment, by a clock that never goes back.

use crate::clock;
use crate::endpoints;
use crate::endpoints::{build_uri, subscribe_message, ConnectionRelay};
use crate::json;
use crate::payload;
use crate::payload::{message_to_raw_bytes, WsMessage};
use crate::symbol;
use crate::symbol::stream_name;
use crate::text::same_text;
use vstd::prelude::*;
use vstd::utf8::*;

verus! {

/// Reconnect if no text or binary frame came for this long.
pub const WS_IDLE_RECONNECT_NS: u128 = 5_000_000_000;

/// How often an idle connection is reported.
pub const WS_IDLE_PROGRESS_LOG_NS: u128 = 1_000_000_000;

/// How long to wait for a message before the connection is looked at.
pub const WS_RECV_TIMEOUT_MS: u64 = 1000;

/// The pause after a failure.
pub const READER_PAUSE_MS: u64 = 200;

/// What happened to a connection.
pub enum ReaderEvent {
    /// The stop flag was read.
    StopRead { stop: bool },
    /// The connection was made.
    Connected { now: u128 },
    /// The connection could not be made.
    ConnectFailed { stop: bool },
    /// The subscription was sent.
    Subscribed { now: u128 },
    /// The subscription could not be sent.
    SubscribeFailed { stop: bool },
    /// The stop flag was written, or can be written no more.
    StopChanged { closed: bool, stop: bool },
    /// A reconnect was requested, or can be requested no more.
    ReconnectChanged { closed: bool, stop: bool },
    /// A message came in, be it a control frame.
    Received { message: WsMessage, now: u128 },
    /// Receiving failed.
    ReceiveFailed { stop: bool },
    /// The other side closed the connection.
    Closed { stop: bool },
    /// Nothing came in for a while.
    TimedOut { now: u128 },
}

/// What to do next, as mathematics.
pub enum ReaderActionModel {
    ReadStop,
    Connect,
    Subscribe { text: Seq<char> },
    Receive,
    Deliver { raw: Seq<u8> },
    Pause,
    Return,
}

/// What to do next.
pub enum ReaderAction {
    /// Give up the connection, if any, and read the stop flag.
    ReadStop,
    /// Connect.
    Connect,
    /// Send the subscription.
    Subscribe { text: String },
    /// Wait for a message, a stop or a reconnect request.
    Receive,
    /// Hand the bytes on, then wait as for `Receive`.
    Deliver { raw: Vec<u8> },
    /// Pause, give up the connection, if any, and read the stop flag.
    Pause,
    /// Stop for good.
    Return,
}

impl View for ReaderAction {
    type V = ReaderActionModel;

    open spec fn view(&self) -> ReaderActionModel {
        match *self {
            ReaderAction::ReadStop => ReaderActionModel::ReadStop,
            ReaderAction::Connect => ReaderActionModel::Connect,
            ReaderAction::Subscribe { text } => ReaderActionModel::Subscribe { text: text@ },
            ReaderAction::Receive => ReaderActionModel::Receive,
            ReaderAction::Deliver { raw } => ReaderActionModel::Deliver { raw: raw@ },
            ReaderAction::Pause => ReaderActionModel::Pause,
            ReaderAction::Return => ReaderActionModel::Return,
        }
    }
}

/// What to report.
#[derive(Clone, Copy, PartialEq, Eq, Structural, Debug)]
pub enum ReaderNotice {
    Nothing,
    Connecting,
    Connected,
    /// Connecting or subscribing failed.
    Failed,
    /// The connection broke.
    Broken,
    /// The other side closed the connection.
    Ended,
    ReconnectRequested,
    IdleReconnect,
    IdleProgress { idle_ns: u128 },
}

/// What to do and what to report.
pub struct ReaderStep {
    pub action: ReaderAction,
    pub notice: ReaderNotice,
}

/// The state of a reader, as mathematics.
pub struct ReaderModel {
    pub stream_name: Seq<char>,
    pub uri: Seq<char>,
    pub subscribes: bool,
    pub message_id: u64,
    pub last_payload: u128,
    pub last_progress: u128,
}

/// The state of a reader.
pub struct Reader {
    pub stream_name: String,
    pub uri: String,
    pub subscribes: bool,
    pub message_id: u64,
    pub last_payload: u128,
    pub last_progress: u128,
}

impl View for Reader {
    type V = ReaderModel;

    open spec fn view(&self) -> ReaderModel {
        ReaderModel {
            stream_name: self.stream_name@,
            uri: self.uri@,
            subscribes: self.subscribes,
            message_id: self.message_id,
            last_payload: self.last_payload,
            last_progress: self.last_progress,
        }
    }
}

/// The reader of a connection at its start.
pub open spec fn reader_start(connection: endpoints::ConnectionModel) -> ReaderModel {
    let stream_name = symbol::book_ticker(connection.symbol);
    ReaderModel {
        stream_name,
        uri: endpoints::uri_of(connection.base_uri, stream_name),
        subscribes: connection.endpoint_name == "stream"@,
        message_id: 1,
        last_payload: 0,
        last_progress: 0,
    }
}

/// Whether the reader is about to send a subscription.
pub open spec fn sends_subscription(state: ReaderModel, event: ReaderEvent) -> bool {
    event is Connected && state.subscribes
}

/// When the connection is looked at after an event that brought no payload: at a time-out, and
/// at a control frame.
pub open spec fn idle_look(event: ReaderEvent) -> Option<u128> {
    match event {
        ReaderEvent::TimedOut { now } => Some(now),
        ReaderEvent::Received { message, now } => if payload::raw_bytes(message) is None {
            Some(now)
        } else {
            None
        },
        _ => None,
    }
}

/// When the reader last had a sign of life after the event.
pub open spec fn sign_of_life(state: ReaderModel, event: ReaderEvent) -> Option<u128> {
    match event {
        ReaderEvent::Connected { now } => if state.subscribes {
            None
        } else {
            Some(now)
        },
        ReaderEvent::Subscribed { now } => Some(now),
        ReaderEvent::Received { message, now } => if payload::raw_bytes(message) is Some {
            Some(now)
        } else {
            None
        },
        _ => None,
    }
}

/// Whether an idle connection is to be given up.
pub open spec fn stalled(state: ReaderModel, now: u128) -> bool {
    clock::elapsed(now, state.last_payload) >= WS_IDLE_RECONNECT_NS
}

/// Whether an idle connection is to be reported.
pub open spec fn reports_idle(state: ReaderModel, now: u128) -> bool {
    !stalled(state, now) && clock::elapsed(now, state.last_progress) >= WS_IDLE_PROGRESS_LOG_NS
}

/// The state after an event.
pub open spec fn reader_next(state: ReaderModel, event: ReaderEvent) -> ReaderModel {
    ReaderModel {
        message_id: if sends_subscription(state, event) {
            (state.message_id + 1) as u64
        } else {
            state.message_id
        },
        last_payload: match sign_of_life(state, event) {
            Some(now) => now,
            None => state.last_payload,
        },
        last_progress: match event {
            ReaderEvent::Connected { now } => if state.subscribes {
                state.last_progress
            } else {
                now
            },
            ReaderEvent::Subscribed { now } => now,
            _ => match idle_look(event) {
                Some(now) => if reports_idle(state, now) {
                    now
                } else {
                    state.last_progress
                },
                None => state.last_progress,
            },
        },
        ..state
    }
}

/// What to do after a failure: pause and start over, or just start over on the way to a stop.
pub open spec fn after_failure(stop: bool) -> ReaderActionModel {
    if stop {
        ReaderActionModel::ReadStop
    } else {
        ReaderActionModel::Pause
    }
}

/// What to do with a connection that is looked at.
pub open spec fn idle_action(state: ReaderModel, now: u128) -> ReaderActionModel {
    if stalled(state, now) {
        ReaderActionModel::ReadStop
    } else {
        ReaderActionModel::Receive
    }
}

/// What to report of a connection that is looked at.
pub open spec fn idle_notice(state: ReaderModel, now: u128) -> ReaderNotice {
    if stalled(state, now) {
        ReaderNotice::IdleReconnect
    } else if reports_idle(state, now) {
        ReaderNotice::IdleProgress { idle_ns: clock::elapsed(now, state.last_payload) }
    } else {
        ReaderNotice::Nothing
    }
}

/// What to do after an event.
pub open spec fn reader_action(state: ReaderModel, event: ReaderEvent) -> ReaderActionModel {
    match event {
        ReaderEvent::StopRead { stop } => if stop {
            ReaderActionModel::Return
        } else {
            ReaderActionModel::Connect
        },
        ReaderEvent::Connected { .. } => if state.subscribes {
            ReaderActionModel::Subscribe {
                text: json::object_json(
                    endpoints::subscribe_members(state.stream_name, state.message_id),
                ),
            }
        } else {
            ReaderActionModel::Receive
        },
        ReaderEvent::Subscribed { .. } => ReaderActionModel::Receive,
        ReaderEvent::ConnectFailed { stop } => after_failure(stop),
        ReaderEvent::SubscribeFailed { stop } => after_failure(stop),
        ReaderEvent::ReceiveFailed { stop } => after_failure(stop),
        ReaderEvent::Closed { stop } => after_failure(stop),
        ReaderEvent::StopChanged { closed, stop } => if closed || stop {
            ReaderActionModel::Return
        } else {
            ReaderActionModel::Receive
        },
        ReaderEvent::ReconnectChanged { closed, stop } => if !closed && !stop {
            ReaderActionModel::ReadStop
        } else {
            ReaderActionModel::Receive
        },
        ReaderEvent::Received { message, now } => match payload::raw_bytes(message) {
            Some(raw) => ReaderActionModel::Deliver { raw },
            None => idle_action(state, now),
        },
        ReaderEvent::TimedOut { now } => idle_action(state, now),
    }
}

/// A notice that is kept back on the way to a stop.
pub open spec fn unless_stopping(stop: bool, notice: ReaderNotice) -> ReaderNotice {
    if stop {
        ReaderNotice::Nothing
    } else {
        notice
    }
}

/// What to report after an event.
pub open spec fn reader_notice(state: ReaderModel, event: ReaderEvent) -> ReaderNotice {
    match event {
        ReaderEvent::StopRead { stop } => unless_stopping(stop, ReaderNotice::Connecting),
        ReaderEvent::Connected { .. } => if state.subscribes {
            ReaderNotice::Nothing
        } else {
            ReaderNotice::Connected
        },
        ReaderEvent::Subscribed { .. } => ReaderNotice::Connected,
        ReaderEvent::ConnectFailed { stop } => unless_stopping(stop, ReaderNotice::Failed),
        ReaderEvent::SubscribeFailed { stop } => unless_stopping(stop, ReaderNotice::Failed),
        ReaderEvent::ReceiveFailed { stop } => unless_stopping(stop, ReaderNotice::Broken),
        ReaderEvent::Closed { stop } => unless_stopping(stop, ReaderNotice::Ended),
        ReaderEvent::ReconnectChanged { closed, stop } => if !closed && !stop {
            ReaderNotice::ReconnectRequested
        } else {
            ReaderNotice::Nothing
        },
        ReaderEvent::Received { message, now } => match payload::raw_bytes(message) {
            Some(_) => ReaderNotice::Nothing,
            None => idle_notice(state, now),
        },
        ReaderEvent::TimedOut { now } => idle_notice(state, now),
        ReaderEvent::StopChanged { .. } => ReaderNotice::Nothing,
    }
}

/// A step without a notice.
fn quietly(action: ReaderAction) -> (r: ReaderStep)
    ensures
        r.action@ == action@,
        r.notice == ReaderNotice::Nothing,
{
    ReaderStep { action, notice: ReaderNotice::Nothing }
}

/// The step after a failure.
fn failed(stop: bool, notice: ReaderNotice) -> (r: ReaderStep)
    ensures
        r.action@ == after_failure(stop),
        r.notice == unless_stopping(stop, notice),
{
    if stop {
        quietly(ReaderAction::ReadStop)
    } else {
        ReaderStep { action: ReaderAction::Pause, notice }
    }
}

impl Reader {
    /// The reader of a connection.
    pub fn new(connection: &ConnectionRelay) -> (r: Reader)
        ensures
            r@ == reader_start(connection@),
            is_ascii_chars(connection@.symbol) ==> r@.stream_name == symbol::ascii_book_ticker(
                connection@.symbol,
            ),
    {
        let stream_name = stream_name(connection.symbol.as_str());
        let uri = build_uri(connection.base_uri, stream_name.as_str());
        Reader {
            stream_name,
            uri,
            subscribes: same_text(connection.endpoint_name, "stream"),
            message_id: 1,
            last_payload: 0,
            last_progress: 0,
        }
    }

    /// Takes an event in and says what to do and what to report.
    pub fn step(&mut self, event: ReaderEvent) -> (r: ReaderStep)
        requires
            sends_subscription(old(self)@, event) ==> old(self).message_id < u64::MAX,
        ensures
            final(self)@ == reader_next(old(self)@, event),
            r.action@ == reader_action(old(self)@, event),
            r.notice == reader_notice(old(self)@, event),
            sends_subscription(old(self)@, event) && json::is_plain(old(self)@.stream_name)
                ==> r.action@ == (ReaderActionModel::Subscribe {
                text: endpoints::subscribe_text(old(self)@.stream_name, old(self).message_id),
            }),
    {
        match event {
            ReaderEvent::StopRead { stop } => if stop {
                quietly(ReaderAction::Return)
            } else {
                ReaderStep { action: ReaderAction::Connect, notice: ReaderNotice::Connecting }
            },
            ReaderEvent::Connected { now } => if self.subscribes {
                let text = subscribe_message(self.stream_name.as_str(), self.message_id);
                self.message_id = self.message_id + 1;
                quietly(ReaderAction::Subscribe { text })
            } else {
                self.start_receiving(now)
            },
            ReaderEvent::Subscribed { now } => self.start_receiving(now),
            ReaderEvent::ConnectFailed { stop } => failed(stop, ReaderNotice::Failed),
            ReaderEvent::SubscribeFailed { stop } => failed(stop, ReaderNotice::Failed),
            ReaderEvent::ReceiveFailed { stop } => failed(stop, ReaderNotice::Broken),
            ReaderEvent::Closed { stop } => failed(stop, ReaderNotice::Ended),
            ReaderEvent::StopChanged { closed, stop } => if closed || stop {
                quietly(ReaderAction::Return)
            } else {
                quietly(ReaderAction::Receive)
            },
            ReaderEvent::ReconnectChanged { closed, stop } => if !closed && !stop {
                ReaderStep {
                    action: ReaderAction::ReadStop,
                    notice: ReaderNotice::ReconnectRequested,
                }
            } else {
                quietly(ReaderAction::Receive)
            },
            ReaderEvent::Received { message, now } => match message_to_raw_bytes(message) {
                Some(raw) => {
                    self.last_payload = now;
                    quietly(ReaderAction::Deliver { raw })
                },
                None => self.look(now),
            },
            ReaderEvent::TimedOut { now } => self.look(now),
        }
    }

    /// Starts to receive on a fresh connection.
    fn start_receiving(&mut self, now: u128) -> (r: ReaderStep)
        ensures
            final(self)@ == (ReaderModel { last_payload: now, last_progress: now, ..old(self)@ }),
            r.action@ == ReaderActionModel::Receive,
            r.notice == ReaderNotice::Connected,
    {
        self.last_payload = now;
        self.last_progress = now;
        ReaderStep { action: ReaderAction::Receive, notice: ReaderNotice::Connected }
    }

    /// Looks at a connection that brought no payload.
    fn look(&mut self, now: u128) -> (r: ReaderStep)
        ensures
            final(self)@ == reader_next(old(self)@, ReaderEvent::TimedOut { now }),
            r.action@ == idle_action(old(self)@, now),
            r.notice == idle_notice(old(self)@, now),
    {
        let idle_ns = now.saturating_sub(self.last_payload);
        if idle_ns >= WS_IDLE_RECONNECT_NS {
            ReaderStep { action: ReaderAction::ReadStop, notice: ReaderNotice::IdleReconnect }
        } else if now.saturating_sub(self.last_progress) >= WS_IDLE_PROGRESS_LOG_NS {
            self.last_progress = now;
            ReaderStep {
                action: ReaderAction::Receive,
                notice: ReaderNotice::IdleProgress { idle_ns },
            }
        } else {
            quietly(ReaderAction::Receive)
        }
    }
}

/// Each connection of a relay asks for the stream of its symbol: the one to the combined endpoint
/// by a subscription, the others in the path of the URI.
pub proof fn law_each_connection_asks_for_its_stream(symbol: Seq<char>, i: int)
    requires
        0 <= i < endpoints::relay_plan(symbol).len(),
    ensures
        ({
            let connection = endpoints::relay_plan(symbol)[i];
            let reader = reader_start(connection);
            &&& reader.stream_name == symbol::book_ticker(symbol)
            &&& reader.subscribes ==> reader.uri == endpoints::STREAM_BINANCE_URI@
            &&& !reader.subscribes ==> reader.uri == connection.base_uri + "/"@
                + reader.stream_name
        }),
{
    reveal_strlit("new");
    reveal_strlit("old");
    reveal_strlit("stream");
    reveal_strlit("wss://fstream.binance.com/ws");
    reveal_strlit("wss://fstream.binance.com/public/ws");
    reveal_strlit("wss://fstream.binance.com/stream");
    let connection = endpoints::relay_plan(symbol)[i];
    assert(endpoints::OLD_BINANCE_URI@.len() < endpoints::STREAM_BINANCE_URI@.len());
    assert(endpoints::NEW_BINANCE_URI@.len() > endpoints::STREAM_BINANCE_URI@.len());
    if i < 4 {
        assert(connection.endpoint_name.len() == 3);
        assert(connection.base_uri.len() != endpoints::STREAM_BINANCE_URI@.len());
        assert("stream"@.len() == 6);
    } else {
        assert(connection.base_uri == endpoints::STREAM_BINANCE_URI@);
        assert(connection.endpoint_name == "stream"@);
    }
    assert(connection.symbol == symbol);
}

/// The state after a run of events.
pub open spec fn reader_after(state: ReaderModel, events: Seq<ReaderEvent>) -> ReaderModel
    decreases events.len(),
{
    if events.len() == 0 {
        state
    } else {
        reader_next(reader_after(state, events.drop_last()), events.last())
    }
}

/// What a connection is to be reached by never changes.
pub proof fn law_target_is_fixed(state: ReaderModel, events: Seq<ReaderEvent>)
    ensures
        reader_after(state, events).stream_name == state.stream_name,
        reader_after(state, events).uri == state.uri,
        reader_after(state, events).subscribes == state.subscribes,
    decreases events.len(),
{
    if events.len() > 0 {
        law_target_is_fixed(state, events.drop_last());
    }
}

/// Without a sign of life the time of the last one stays.
proof fn lemma_quiet_run(state: ReaderModel, events: Seq<ReaderEvent>)
    requires
        forall|i: int| 0 <= i < events.len() ==> sign_of_life(state, #[trigger] events[i]) is None,
    ensures
        reader_after(state, events).last_payload == state.last_payload,
    decreases events.len(),
{
    if events.len() > 0 {
        let rest = events.drop_last();
        assert forall|i: int| 0 <= i < rest.len() implies sign_of_life(
            state,
            #[trigger] rest[i],
        ) is None by {
            assert(rest[i] == events[i]);
        }
        lemma_quiet_run(state, rest);
        law_target_is_fixed(state, rest);
        assert(sign_of_life(state, events[events.len() - 1]) is None);
    }
}

/// A connection on which no text or binary frame came in since its last sign of life, whatever
/// control frames did, is given up at the first time-out or control frame that finds five
/// seconds gone by, and at no earlier one.
pub proof fn law_stall_is_given_up(
    state: ReaderModel,
    sign: ReaderEvent,
    then: u128,
    quiet: Seq<ReaderEvent>,
    event: ReaderEvent,
    now: u128,
)
    requires
        sign_of_life(state, sign) == Some(then),
        forall|i: int| 0 <= i < quiet.len() ==> sign_of_life(state, #[trigger] quiet[i]) is None,
        idle_look(event) == Some(now),
    ensures
        reader_action(reader_after(reader_next(state, sign), quiet), event) == (
        if clock::elapsed(now, then) >= WS_IDLE_RECONNECT_NS {
            ReaderActionModel::ReadStop
        } else {
            ReaderActionModel::Receive
        }),
{
    let fresh = reader_next(state, sign);
    assert forall|i: int| 0 <= i < quiet.len() implies sign_of_life(
        fresh,
        #[trigger] quiet[i],
    ) is None by {
        assert(sign_of_life(state, quiet[i]) is None);
    }
    lemma_quiet_run(fresh, quiet);
}

/// How many connections were made in a run of events.
pub open spec fn connections_made(events: Seq<ReaderEvent>) -> nat
    decreases events.len(),
{
    if events.len() == 0 {
        0
    } else {
        connections_made(events.drop_last()) + if events.last() is Connected {
            1nat
        } else {
            0nat
        }
    }
}

/// On the combined endpoint the subscriptions are numbered from one, each one higher than the
/// one before.
pub proof fn law_subscriptions_are_numbered(
    connection: endpoints::ConnectionModel,
    events: Seq<ReaderEvent>,
    now: u128,
)
    requires
        connection.endpoint_name == "stream"@,
        1 + connections_made(events) <= u64::MAX,
    ensures
        reader_action(
            reader_after(reader_start(connection), events),
            ReaderEvent::Connected { now },
        ) == (ReaderActionModel::Subscribe {
            text: json::object_json(
                endpoints::subscribe_members(
                    symbol::book_ticker(connection.symbol),
                    (1 + connections_made(events)) as u64,
                ),
            ),
        }),
{
    let start = reader_start(connection);
    law_target_is_fixed(start, events);
    lemma_message_id(start, events);
}

/// The next number is one above the connections made.
proof fn lemma_message_id(start: ReaderModel, events: Seq<ReaderEvent>)
    requires
        start.subscribes,
        start.message_id == 1,
        1 + connections_made(events) <= u64::MAX,
    ensures
        reader_after(start, events).message_id == 1 + connections_made(events),
    decreases events.len(),
{
    if events.len() > 0 {
        lemma_message_id(start, events.drop_last());
        law_target_is_fixed(start, events.drop_last());
    }
}

/// The stop flag that came with an event.
pub open spec fn stop_flag(event: ReaderEvent) -> Option<bool> {
    match event {
        ReaderEvent::StopRead { stop } => Some(stop),
        ReaderEvent::ConnectFailed { stop } => Some(stop),
        ReaderEvent::SubscribeFailed { stop } => Some(stop),
        ReaderEvent::StopChanged { stop, .. } => Some(stop),
        ReaderEvent::ReconnectChanged { stop, .. } => Some(stop),
        ReaderEvent::ReceiveFailed { stop } => Some(stop),
        ReaderEvent::Closed { stop } => Some(stop),
        _ => None,
    }
}

/// A reader that sees the stop flag set neither connects nor subscribes nor pauses, and reports
/// nothing.
pub proof fn law_stop_is_heeded(state: ReaderModel, event: ReaderEvent)
    requires
        stop_flag(event) == Some(true),
    ensures
        reader_action(state, event) is ReadStop || reader_action(state, event) is Return
            || reader_action(state, event) is Receive,
        reader_action(state, event) is Receive ==> event is ReconnectChanged,
        reader_notice(state, event) == ReaderNotice::Nothing,
{
}

/// The time of an event, where it has one.
pub open spec fn event_time(event: ReaderEvent) -> Option<u128> {
    match event {
        ReaderEvent::Connected { now } => Some(now),
        ReaderEvent::Subscribed { now } => Some(now),
        ReaderEvent::Received { now, .. } => Some(now),
        ReaderEvent::TimedOut { now } => Some(now),
        _ => None,
    }
}

/// Whether the times of the events never go back.
pub open spec fn in_order(events: Seq<ReaderEvent>) -> bool {
    forall|a: int, b: int|
        #![trigger events[a], events[b]]
        0 <= a <= b < events.len() && event_time(events[a]) is Some && event_time(events[b]) is Some
            ==> event_time(events[a])->0 <= event_time(events[b])->0
}

/// Whatever happens in between: between two reports of an idle connection lies a second at least.
pub proof fn law_idle_reports_are_a_second_apart(
    state: ReaderModel,
    events: Seq<ReaderEvent>,
    i: int,
    j: int,
)
    requires
        0 <= i < j < events.len(),
        in_order(events),
        reader_notice(reader_after(state, events.take(i)), events[i]) is IdleProgress,
        reader_notice(reader_after(state, events.take(j)), events[j]) is IdleProgress,
    ensures
        event_time(events[j])->0 - event_time(events[i])->0 >= WS_IDLE_PROGRESS_LOG_NS,
{
    lemma_one_event_more(state, events, i);
    lemma_last_report_only_rises(state, events, i, j);
}

/// One event more.
proof fn lemma_one_event_more(state: ReaderModel, events: Seq<ReaderEvent>, i: int)
    requires
        0 <= i < events.len(),
    ensures
        reader_after(state, events.take(i + 1)) == reader_next(
            reader_after(state, events.take(i)),
            events[i],
        ),
{
    assert(events.take(i + 1).drop_last() =~= events.take(i));
    assert(events.take(i + 1).last() == events[i]);
}

/// After a report, the time of the last report or connection does not go back behind it.
proof fn lemma_last_report_only_rises(
    state: ReaderModel,
    events: Seq<ReaderEvent>,
    i: int,
    j: int,
)
    requires
        0 <= i < j <= events.len(),
        in_order(events),
        event_time(events[i]) is Some,
        reader_after(state, events.take(i + 1)).last_progress == event_time(events[i])->0,
    ensures
        reader_after(state, events.take(j)).last_progress >= event_time(events[i])->0,
    decreases j - i,
{
    if i + 1 < j {
        lemma_last_report_only_rises(state, events, i, j - 1);
        lemma_one_event_more(state, events, j - 1);
        assert(event_time(events[j - 1]) is Some ==> event_time(events[i])->0 <= event_time(
            events[j - 1],
        )->0);
    }
}

/// Whether an event is a time-out or a control frame, at that time.
pub open spec fn brings_nothing(event: ReaderEvent, now: u128) -> bool {
    ||| event == ReaderEvent::TimedOut { now }
    ||| event == ReaderEvent::Received { message: WsMessage::Other, now }
}

/// Whether an event neither starts a connection nor brings a text or a binary frame.
pub open spec fn is_quiet(event: ReaderEvent) -> bool {
    match event {
        ReaderEvent::Connected { .. } => false,
        ReaderEvent::Subscribed { .. } => false,
        ReaderEvent::Received { message, .. } => message is Other,
        _ => true,
    }
}

/// A quiet run leaves the time of the last frame.
proof fn lemma_quiet_events(state: ReaderModel, quiet: Seq<ReaderEvent>)
    requires
        forall|i: int| 0 <= i < quiet.len() ==> is_quiet(#[trigger] quiet[i]),
    ensures
        reader_after(state, quiet).last_payload == state.last_payload,
{
    assert forall|i: int| 0 <= i < quiet.len() implies sign_of_life(
        state,
        #[trigger] quiet[i],
    ) is None by {
        assert(is_quiet(quiet[i]));
    }
    lemma_quiet_run(state, quiet);
}

/// On every connection, whether it subscribes or not: after a text or a binary frame at time `t`
/// and a quiet run, a time-out or a control frame less than five seconds after `t` leaves the
/// connection alone, and one five seconds after `t` or later gives it up.
pub proof fn law_frame_keeps_connection_five_seconds(
    state: ReaderModel,
    message: WsMessage,
    t: u128,
    quiet: Seq<ReaderEvent>,
    event: ReaderEvent,
    now: u128,
)
    requires
        message is Text || message is Binary,
        forall|i: int| 0 <= i < quiet.len() ==> is_quiet(#[trigger] quiet[i]),
        brings_nothing(event, now),
    ensures
        ({
            let after = reader_after(
                reader_next(state, ReaderEvent::Received { message, now: t }),
                quiet,
            );
            &&& now < t + 5_000_000_000 ==> reader_action(after, event)
                == ReaderActionModel::Receive && reader_notice(after, event)
                != ReaderNotice::IdleReconnect
            &&& now >= t + 5_000_000_000 ==> reader_action(after, event)
                == ReaderActionModel::ReadStop && reader_notice(after, event)
                == ReaderNotice::IdleReconnect
        }),
{
    lemma_quiet_events(reader_next(state, ReaderEvent::Received { message, now: t }), quiet);
}

/// The same holds of a fresh connection, from the time at which it was made or, where it
/// subscribes, at which the subscription was sent.
pub proof fn law_fresh_connection_is_kept_five_seconds(
    state: ReaderModel,
    t: u128,
    quiet: Seq<ReaderEvent>,
    event: ReaderEvent,
    now: u128,
)
    requires
        forall|i: int| 0 <= i < quiet.len() ==> is_quiet(#[trigger] quiet[i]),
        brings_nothing(event, now),
    ensures
        ({
            let start = if state.subscribes {
                ReaderEvent::Subscribed { now: t }
            } else {
                ReaderEvent::Connected { now: t }
            };
            let after = reader_after(reader_next(state, start), quiet);
            &&& reader_action(state, start) == ReaderActionModel::Receive
            &&& reader_notice(state, start) == ReaderNotice::Connected
            &&& now < t + 5_000_000_000 ==> reader_action(after, event)
                == ReaderActionModel::Receive
            &&& now >= t + 5_000_000_000 ==> reader_action(after, event)
                == ReaderActionModel::ReadStop && reader_notice(after, event)
                == ReaderNotice::IdleReconnect
        }),
{
    let start = if state.subscribes {
        ReaderEvent::Subscribed { now: t }
    } else {
        ReaderEvent::Connected { now: t }
    };
    lemma_quiet_events(reader_next(state, start), quiet);
}

/// In every state each text frame is handed on in UTF-8 and each binary one as it is, without a
/// report and without a change but in the time of the last frame.
pub proof fn law_every_frame_is_handed_on(
    state: ReaderModel,
    text: String,
    bytes: Vec<u8>,
    now: u128,
)
    ensures
        ({
            let event = ReaderEvent::Received { message: WsMessage::Text(text), now };
            &&& reader_action(state, event) == (ReaderActionModel::Deliver {
                raw: encode_utf8(text@),
            })
            &&& reader_notice(state, event) == ReaderNotice::Nothing
            &&& reader_next(state, event).message_id == state.message_id
            &&& reader_next(state, event).last_progress == state.last_progress
        }),
        ({
            let event = ReaderEvent::Received { message: WsMessage::Binary(bytes), now };
            &&& reader_action(state, event) == (ReaderActionModel::Deliver { raw: bytes@ })
            &&& reader_notice(state, event) == ReaderNotice::Nothing
            &&& reader_next(state, event).message_id == state.message_id
            &&& reader_next(state, event).last_progress == state.last_progress
        }),
{
}

/// A connection that is looked at less than five seconds after its last frame is reported where a
/// second has gone by since it was last reported or made, with the time since the last frame; the
/// report is then remembered.
pub proof fn law_idle_connection_is_reported(state: ReaderModel, event: ReaderEvent, now: u128)
    requires
        brings_nothing(event, now),
        state.last_payload <= now < state.last_payload + 5_000_000_000,
        state.last_progress <= now,
    ensures
        now - state.last_progress >= 1_000_000_000 ==> reader_notice(state, event) == (
        ReaderNotice::IdleProgress { idle_ns: (now - state.last_payload) as u128 })
            && reader_next(state, event).last_progress == now,
        now - state.last_progress < 1_000_000_000 ==> reader_notice(state, event)
            == ReaderNotice::Nothing && reader_next(state, event).last_progress
            == state.last_progress,
{
}

/// A reader starts over after every failure: with a pause and a report unless it is to stop. It
/// connects whenever it is not to stop, and returns where it is.
pub proof fn law_reader_starts_over(state: ReaderModel, stop: bool)
    ensures
        reader_action(state, ReaderEvent::StopRead { stop: false }) == ReaderActionModel::Connect,
        reader_action(state, ReaderEvent::StopRead { stop: true }) == ReaderActionModel::Return,
        reader_notice(state, ReaderEvent::StopRead { stop: false }) == ReaderNotice::Connecting,
        reader_action(state, ReaderEvent::ConnectFailed { stop: false })
            == ReaderActionModel::Pause,
        reader_action(state, ReaderEvent::SubscribeFailed { stop: false })
            == ReaderActionModel::Pause,
        reader_action(state, ReaderEvent::ReceiveFailed { stop: false })
            == ReaderActionModel::Pause,
        reader_action(state, ReaderEvent::Closed { stop: false }) == ReaderActionModel::Pause,
        reader_notice(state, ReaderEvent::ConnectFailed { stop: false }) == ReaderNotice::Failed,
        reader_notice(state, ReaderEvent::SubscribeFailed { stop: false }) == ReaderNotice::Failed,
        reader_notice(state, ReaderEvent::ReceiveFailed { stop: false }) == ReaderNotice::Broken,
        reader_notice(state, ReaderEvent::Closed { stop: false }) == ReaderNotice::Ended,
        reader_action(state, ReaderEvent::StopChanged { closed: true, stop })
            == ReaderActionModel::Return,
        reader_action(state, ReaderEvent::StopChanged { closed: false, stop: true })
            == ReaderActionModel::Return,
        reader_action(state, ReaderEvent::StopChanged { closed: false, stop: false })
            == ReaderActionModel::Receive,
        reader_action(state, ReaderEvent::ReconnectChanged { closed: false, stop: false })
            == ReaderActionModel::ReadStop,
        reader_notice(state, ReaderEvent::ReconnectChanged { closed: false, stop: false })
            == ReaderNotice::ReconnectRequested,
        reader_action(state, ReaderEvent::ReconnectChanged { closed: true, stop })
            == ReaderActionModel::Receive,
{
}

/// An event that brings no time changes nothing in the state of a reader.
pub proof fn law_state_changes_with_frames_and_time_only(state: ReaderModel, event: ReaderEvent)
    requires
        !(event is Connected),
        !(event is Subscribed),
        !(event is Received),
        !(event is TimedOut),
    ensures
        reader_next(state, event) == state,
{
}

/// A reader of any connection subscribes exactly on the combined endpoint, and starts with the
/// stream of its symbol and the first number.
pub proof fn law_reader_starts_with_its_stream(connection: endpoints::ConnectionModel)
    ensures
        ({
            let start = reader_start(connection);
            &&& start.subscribes <==> connection.endpoint_name == "stream"@
            &&& start.stream_name == crate::text::lowercase(connection.symbol) + "@bookTicker"@
            &&& start.message_id == 1
            &&& start.uri == connection.base_uri || start.uri == connection.base_uri + "/"@
                + start.stream_name
            &&& start.uri == connection.base_uri ==> connection.base_uri
                == "wss://fstream.binance.com/stream"@
        }),
{
    reveal_strlit("/");
    let start = reader_start(connection);
    assert((connection.base_uri + "/"@ + start.stream_name).len() > connection.base_uri.len());
}

/// What happens to the stop flag and to requests is not reported, but for a request that is
/// heeded; nor is a subscription before it is sent.
pub proof fn law_reader_is_quiet_otherwise(state: ReaderModel, closed: bool, stop: bool, now: u128)
    ensures
        reader_notice(state, ReaderEvent::StopChanged { closed, stop }) == ReaderNotice::Nothing,
        closed || stop ==> reader_notice(state, ReaderEvent::ReconnectChanged { closed, stop })
            == ReaderNotice::Nothing,
        state.subscribes ==> reader_notice(state, ReaderEvent::Connected { now })
            == ReaderNotice::Nothing,
{
}

/// A connection is looked at every second, so that one without frames is looked at five times
/// before it is given up; the pause after a failure is a fifth of that second.
pub proof fn law_reader_looks_every_second()
    ensures
        WS_RECV_TIMEOUT_MS == 1000,
        5 * WS_RECV_TIMEOUT_MS * 1_000_000 == WS_IDLE_RECONNECT_NS,
        WS_RECV_TIMEOUT_MS * 1_000_000 == WS_IDLE_PROGRESS_LOG_NS,
        5 * READER_PAUSE_MS == WS_RECV_TIMEOUT_MS,
{
}

/// On the way to a stop a reader that fails reads the stop flag again, without a pause and without
/// a report.
pub proof fn law_stopping_reader_does_not_pause(state: ReaderModel)
    ensures
        reader_action(state, ReaderEvent::ConnectFailed { stop: true })
            == ReaderActionModel::ReadStop,
        reader_action(state, ReaderEvent::SubscribeFailed { stop: true })
            == ReaderActionModel::ReadStop,
        reader_action(state, ReaderEvent::ReceiveFailed { stop: true })
            == ReaderActionModel::ReadStop,
        reader_action(state, ReaderEvent::Closed { stop: true }) == ReaderActionModel::ReadStop,
        reader_action(state, ReaderEvent::ReconnectChanged { closed: false, stop: true })
            == ReaderActionModel::Receive,
{
}

} // verus!
