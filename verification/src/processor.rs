//! The processing side of a connection: the latest frame, its latency, and which updates go on.

use crate::dedup;
use crate::dedup::SentIds;
use crate::forward;
use crate::forward::member_u64;
use crate::json;
use crate::json::Json;
use crate::latency;
use crate::latency::ConnectionHealth;
use crate::packet;
use vstd::prelude::*;

verus! {

/// How often dropped frames are reported.
pub const DROP_REPORT_INTERVAL: u64 = 100;

/// The pause after a packet could not be sent.
pub const PROCESSOR_PAUSE_MS: u64 = 50;

/// The latest frame of a connection that was not yet processed.
pub struct LatestBuffer {
    pub latest: Option<Vec<u8>>,
}

impl View for LatestBuffer {
    type V = Option<Seq<u8>>;

    open spec fn view(&self) -> Option<Seq<u8>> {
        match self.latest {
            Some(raw) => Some(raw@),
            None => None,
        }
    }
}

impl LatestBuffer {
    /// An empty buffer.
    pub fn new() -> (r: LatestBuffer)
        ensures
            r.latest is None,
    {
        LatestBuffer { latest: None }
    }

    /// Keeps a frame, in place of the one that was kept.
    pub fn store(&mut self, raw: Vec<u8>)
        ensures
            final(self).latest == Some(raw),
            final(self)@ == kept_after(old(self)@, raw@),
    {
        self.latest = Some(raw);
    }

    /// Takes the frame out.
    pub fn take(&mut self) -> (r: Option<Vec<u8>>)
        ensures
            r == old(self).latest,
            final(self).latest is None,
            match r {
                Some(raw) => old(self)@ == Some(raw@),
                None => old(self)@ is None,
            },
            final(self)@ is None,
    {
        let mut taken: Option<Vec<u8>> = None;
        std::mem::swap(&mut taken, &mut self.latest);
        taken
    }
}

/// What happened between two frames.
#[derive(Clone, Copy)]
pub enum ProcessorEvent {
    /// There was no frame; the stop flag was read.
    Empty { stop: bool },
    /// The stop flag was written, or can be written no more.
    StopChanged { closed: bool, stop: bool },
    /// A frame was stored.
    Notified,
    /// The packet could not be sent.
    ForwardFailed { stop: bool },
}

/// What to do between two frames.
#[derive(Clone, Copy, PartialEq, Eq, Structural, Debug)]
pub enum IdleAction {
    /// Look for a frame.
    Next,
    /// Wait for a frame or a stop.
    Wait,
    /// Report the failure, pause, then look for a frame.
    ReportAndPause,
    /// Stop for good.
    Return,
}

/// What to do after an event between two frames.
pub open spec fn idle_action_of(event: ProcessorEvent) -> IdleAction {
    match event {
        ProcessorEvent::Empty { stop } => if stop {
            IdleAction::Return
        } else {
            IdleAction::Wait
        },
        ProcessorEvent::StopChanged { closed, stop } => if closed || stop {
            IdleAction::Return
        } else {
            IdleAction::Next
        },
        ProcessorEvent::Notified => IdleAction::Next,
        ProcessorEvent::ForwardFailed { stop } => if stop {
            IdleAction::Next
        } else {
            IdleAction::ReportAndPause
        },
    }
}

/// Says what to do after an event between two frames.
pub fn idle_action(event: ProcessorEvent) -> (r: IdleAction)
    ensures
        r == idle_action_of(event),
{
    match event {
        ProcessorEvent::Empty { stop } => if stop {
            IdleAction::Return
        } else {
            IdleAction::Wait
        },
        ProcessorEvent::StopChanged { closed, stop } => if closed || stop {
            IdleAction::Return
        } else {
            IdleAction::Next
        },
        ProcessorEvent::Notified => IdleAction::Next,
        ProcessorEvent::ForwardFailed { stop } => if stop {
            IdleAction::Next
        } else {
            IdleAction::ReportAndPause
        },
    }
}

/// What becomes of a frame, as mathematics.
pub enum FrameModel {
    Forward { payload: json::JsonModel, u_value: u64 },
    Stale,
    MissingU { report: Option<u64> },
    Dropped { report: Option<u64> },
}

/// What becomes of a frame.
pub enum Frame {
    /// The update is new: send it on.
    Forward { payload: Json, u_value: u64 },
    /// The update was there before.
    Stale,
    /// The payload has no update id; every so often the number of such payloads is reported.
    MissingU { report: Option<u64> },
    /// The frame holds no payload; every so often the number of such frames is reported.
    Dropped { report: Option<u64> },
}

impl View for Frame {
    type V = FrameModel;

    open spec fn view(&self) -> FrameModel {
        match *self {
            Frame::Forward { payload, u_value } => FrameModel::Forward {
                payload: payload@,
                u_value,
            },
            Frame::Stale => FrameModel::Stale,
            Frame::MissingU { report } => FrameModel::MissingU { report },
            Frame::Dropped { report } => FrameModel::Dropped { report },
        }
    }
}

/// What a processor counts.
#[derive(Clone, Copy)]
pub struct Processor {
    pub decode_fail_count: u64,
    pub missing_u_count: u64,
}

/// The mathematics of an optional payload.
pub open spec fn payload_view(payload: Option<Json>) -> Option<json::JsonModel> {
    match payload {
        Some(payload) => Some(payload@),
        None => None,
    }
}

/// The update id of a frame.
pub open spec fn update_id(payload: Option<json::JsonModel>) -> Option<u64> {
    match payload {
        Some(payload) => forward::u64_member(payload, "u"@),
        None => None,
    }
}

/// Whether a frame holds a payload without an update id.
pub open spec fn lacks_u(payload: Option<json::JsonModel>) -> bool {
    payload is Some && update_id(payload) is None
}

/// A count that is to be reported.
pub open spec fn report_of(count: int) -> Option<u64> {
    if count % (DROP_REPORT_INTERVAL as int) == 0 {
        Some(count as u64)
    } else {
        None
    }
}

/// What becomes of a frame.
pub open spec fn frame_of(
    processor: Processor,
    sent: Set<u64>,
    payload: Option<json::JsonModel>,
) -> FrameModel {
    match payload {
        None => FrameModel::Dropped { report: report_of(processor.decode_fail_count + 1) },
        Some(document) => match update_id(payload) {
            None => FrameModel::MissingU { report: report_of(processor.missing_u_count + 1) },
            Some(u_value) => if sent.contains(u_value) {
                FrameModel::Stale
            } else {
                FrameModel::Forward { payload: document, u_value }
            },
        },
    }
}

/// The latency of a frame: from the exchange's timestamp, where it has one, to now.
pub open spec fn latency_of(payload: Option<json::JsonModel>, now_ms: u64) -> Option<u64> {
    match payload {
        Some(payload) => match forward::u64_member(payload, "E"@) {
            Some(exchange_ts) => Some(
                if now_ms >= exchange_ts {
                    (now_ms - exchange_ts) as u64
                } else {
                    0
                },
            ),
            None => None,
        },
        None => None,
    }
}

/// The samples after a frame.
pub open spec fn samples_after(samples: Seq<u64>, latency: Option<u64>) -> Seq<u64> {
    match latency {
        Some(latency_ms) => if samples.len() < latency::LATENCY_SAMPLE_CAP {
            samples.push(latency_ms)
        } else {
            samples
        },
        None => samples,
    }
}

/// A count that is to be reported.
fn report(count: u64) -> (r: Option<u64>)
    ensures
        r == report_of(count as int),
{
    if count % DROP_REPORT_INTERVAL == 0 {
        Some(count)
    } else {
        None
    }
}

impl Processor {
    /// A processor that has counted nothing yet.
    pub fn new() -> (r: Processor)
        ensures
            r == (Processor { decode_fail_count: 0, missing_u_count: 0 }),
    {
        Processor { decode_fail_count: 0, missing_u_count: 0 }
    }

    /// Takes the payload of a frame, if it holds one, and says what becomes of it.
    pub fn process(
        &mut self,
        payload: Option<Json>,
        now_ms: u64,
        health: &mut ConnectionHealth,
        sent: &mut SentIds,
    ) -> (r: Frame)
        requires
            payload is None ==> old(self).decode_fail_count < u64::MAX,
            lacks_u(payload_view(payload)) ==> old(self).missing_u_count < u64::MAX,
        ensures
            r@ == frame_of(*old(self), old(sent).ids@, payload_view(payload)),
            final(self).decode_fail_count == old(self).decode_fail_count + (if payload is None {
                1int
            } else {
                0
            }),
            final(self).missing_u_count == old(self).missing_u_count + (if lacks_u(
                payload_view(payload),
            ) {
                1int
            } else {
                0
            }),
            (final(self).decode_fail_count as nat, final(self).missing_u_count as nat)
                == processor_after(*old(self), payload_view(payload)),
            final(sent).ids@ == (match r {
                Frame::Forward { u_value, .. } => old(sent).ids@.insert(u_value),
                _ => old(sent).ids@,
            }),
            final(health).name == old(health).name,
            final(health).reconnect_requests == old(health).reconnect_requests,
            final(health).latency_samples_ms@ == samples_after(
                old(health).latency_samples_ms@,
                latency_of(payload_view(payload), now_ms),
            ),
            old(health).wf() ==> final(health).wf(),
    {
        match payload {
            Some(payload) => {
                if let Some(exchange_ts) = member_u64(&payload, "E") {
                    health.record_latency_ms(now_ms.saturating_sub(exchange_ts));
                }
                match member_u64(&payload, "u") {
                    Some(u_value) => if sent.register(u_value) {
                        Frame::Forward { payload, u_value }
                    } else {
                        Frame::Stale
                    },
                    None => {
                        self.missing_u_count = self.missing_u_count + 1;
                        Frame::MissingU { report: report(self.missing_u_count) }
                    },
                }
            },
            None => {
                self.decode_fail_count = self.decode_fail_count + 1;
                Frame::Dropped { report: report(self.decode_fail_count) }
            },
        }
    }
}

/// The update ids of a run of frames, in order.
pub open spec fn ids_of(frames: Seq<Option<json::JsonModel>>) -> Seq<u64>
    decreases frames.len(),
{
    if frames.len() == 0 {
        Seq::empty()
    } else {
        let before = ids_of(frames.drop_last());
        match update_id(frames.last()) {
            Some(u_value) => before.push(u_value),
            None => before,
        }
    }
}

/// The ids that went through after a frame.
pub open spec fn sent_after_frame(
    processor: Processor,
    sent: Set<u64>,
    payload: Option<json::JsonModel>,
) -> Set<u64> {
    match frame_of(processor, sent, payload) {
        FrameModel::Forward { u_value, .. } => sent.insert(u_value),
        _ => sent,
    }
}

/// The ids that went through after a run of frames that any processors took in turn.
pub open spec fn sent_after_run(
    processors: Seq<Processor>,
    sent: Set<u64>,
    frames: Seq<Option<json::JsonModel>>,
) -> Set<u64>
    decreases frames.len(),
{
    if frames.len() == 0 {
        sent
    } else {
        sent_after_frame(
            processors[frames.len() - 1],
            sent_after_run(processors, sent, frames.drop_last()),
            frames.last(),
        )
    }
}

/// The ids that are sent on in a run of frames that any processors took in turn.
pub open spec fn sent_on(
    processors: Seq<Processor>,
    sent: Set<u64>,
    frames: Seq<Option<json::JsonModel>>,
) -> Seq<u64>
    decreases frames.len(),
{
    if frames.len() == 0 {
        Seq::empty()
    } else {
        let before = sent_on(processors, sent, frames.drop_last());
        match frame_of(
            processors[frames.len() - 1],
            sent_after_run(processors, sent, frames.drop_last()),
            frames.last(),
        ) {
            FrameModel::Forward { u_value, .. } => before.push(u_value),
            _ => before,
        }
    }
}

/// Processors that share the ids that went through send on, in any interleaving, just the ids
/// that the filter lets through.
pub proof fn law_sent_ids_are_filtered(
    processors: Seq<Processor>,
    sent: Set<u64>,
    frames: Seq<Option<json::JsonModel>>,
)
    ensures
        sent_on(processors, sent, frames) == dedup::let_through(sent, ids_of(frames)),
        sent_after_run(processors, sent, frames) == dedup::sent_after(sent, ids_of(frames)),
    decreases frames.len(),
{
    if frames.len() > 0 {
        let rest = frames.drop_last();
        law_sent_ids_are_filtered(processors, sent, rest);
        if let Some(u_value) = update_id(frames.last()) {
            let before = sent_after_run(processors, sent, rest);
            assert(ids_of(frames).drop_last() =~= ids_of(rest));
            if before.contains(u_value) {
                assert(before.insert(u_value) =~= before);
            }
        }
    }
}

/// Whichever connections the frames come from, and in whatever order: each update that was not
/// sent on before is sent on once, and no other is.
pub proof fn law_each_update_is_sent_once(
    processors: Seq<Processor>,
    sent: Set<u64>,
    frames: Seq<Option<json::JsonModel>>,
)
    ensures
        sent_on(processors, sent, frames).no_duplicates(),
        forall|u_value: u64| #[trigger]
            sent_on(processors, sent, frames).contains(u_value) <==> ids_of(frames).contains(
                u_value,
            ) && !sent.contains(u_value),
{
    law_sent_ids_are_filtered(processors, sent, frames);
    dedup::law_each_id_goes_through_once(sent, ids_of(frames));
}

/// The packet of a frame that is sent on carries the update id of its payload, which did not go
/// through before.
pub proof fn law_packet_carries_update_id(
    processor: Processor,
    sent: Set<u64>,
    payload: json::JsonModel,
    relay_symbol: Seq<char>,
    converted: forward::Converted,
    reading: Result<u128, String>,
)
    requires
        frame_of(processor, sent, Some(payload)) is Forward,
        forward::pending_of(relay_symbol, payload) is Ok,
        forward::packet_of(
            relay_symbol,
            forward::pending_of(relay_symbol, payload)->Ok_0,
            converted,
            reading,
            frame_of(processor, sent, Some(payload))->u_value,
        ) is Ok,
    ensures
        ({
            let bytes = forward::packet_of(
                relay_symbol,
                forward::pending_of(relay_symbol, payload)->Ok_0,
                converted,
                reading,
                frame_of(processor, sent, Some(payload))->u_value,
            )->Ok_0;
            &&& forward::u64_member(payload, "u"@) == Some(packet::number_at(bytes, 64))
            &&& !sent.contains(packet::number_at(bytes, 64))
        }),
{
    forward::law_packet_carries_payload(
        relay_symbol,
        payload,
        converted,
        reading,
        frame_of(processor, sent, Some(payload))->u_value,
    );
}

/// What becomes of a frame. One without a payload is dropped; a payload without a readable `u` is
/// missing its id; each of these is reported at every hundredth, with the count. A payload whose
/// id went through before is stale; any other is sent on, itself and under its id, whatever the
/// id is.
pub proof fn law_frame_goes_by_its_update_id(
    processor: Processor,
    sent: Set<u64>,
    payload: json::JsonModel,
)
    ensures
        frame_of(processor, sent, None) == (FrameModel::Dropped {
            report: if (processor.decode_fail_count + 1) % 100 == 0 {
                Some((processor.decode_fail_count + 1) as u64)
            } else {
                None
            },
        }),
        ({
            let id = match json::member(payload, "u"@) {
                Some(value) => json::u64_reading(value),
                None => None,
            };
            match id {
                Some(u_value) => if sent.contains(u_value) {
                    frame_of(processor, sent, Some(payload)) == FrameModel::Stale
                } else {
                    frame_of(processor, sent, Some(payload)) == (FrameModel::Forward {
                        payload,
                        u_value,
                    })
                },
                None => frame_of(processor, sent, Some(payload)) == (FrameModel::MissingU {
                    report: if (processor.missing_u_count + 1) % 100 == 0 {
                        Some((processor.missing_u_count + 1) as u64)
                    } else {
                        None
                    },
                }),
            }
        }),
{
}

/// The latency of a payload and the exchange's timestamp give the present time; a timestamp from
/// the future gives none, and so does a payload without one.
pub proof fn law_latency_is_the_time_since_the_exchange(
    payload: json::JsonModel,
    exchange_ts: u64,
    now_ms: u64,
)
    ensures
        ({
            let stamp = match json::member(payload, "E"@) {
                Some(value) => json::u64_reading(value),
                None => None,
            };
            let latency = latency_of(Some(payload), now_ms);
            &&& stamp is None ==> latency is None
            &&& stamp == Some(exchange_ts) ==> latency is Some
            &&& stamp == Some(exchange_ts) && exchange_ts <= now_ms ==> latency->0 + exchange_ts
                == now_ms
            &&& stamp == Some(exchange_ts) && exchange_ts > now_ms ==> latency->0 == 0
        }),
        latency_of(None, now_ms) is None,
{
}

/// A latency is put behind the samples until there are a hundred thousand; then, and without a
/// latency, they stay.
pub proof fn law_samples_are_kept_in_order(samples: Seq<u64>, latency_ms: u64)
    ensures
        samples.len() < 100_000 ==> samples_after(samples, Some(latency_ms)) == samples.push(
            latency_ms,
        ),
        samples.len() >= 100_000 ==> samples_after(samples, Some(latency_ms)) == samples,
        samples_after(samples, None) == samples,
{
}

/// Between two frames: without a frame a processor waits unless it is to stop; it looks for a
/// frame when one was stored; it returns when the stop flag is set or can be written no more; and
/// a failure is reported, with a pause, unless it is to stop.
pub proof fn law_processor_waits_for_frames(stop: bool)
    ensures
        idle_action_of(ProcessorEvent::Empty { stop: false }) == IdleAction::Wait,
        idle_action_of(ProcessorEvent::Empty { stop: true }) == IdleAction::Return,
        idle_action_of(ProcessorEvent::Notified) == IdleAction::Next,
        idle_action_of(ProcessorEvent::StopChanged { closed: true, stop }) == IdleAction::Return,
        idle_action_of(ProcessorEvent::StopChanged { closed: false, stop: true })
            == IdleAction::Return,
        idle_action_of(ProcessorEvent::StopChanged { closed: false, stop: false })
            == IdleAction::Next,
        idle_action_of(ProcessorEvent::ForwardFailed { stop: false })
            == IdleAction::ReportAndPause,
        idle_action_of(ProcessorEvent::ForwardFailed { stop: true }) == IdleAction::Next,
{
}

/// What a buffer keeps after a frame was stored.
pub open spec fn kept_after(kept: Option<Seq<u8>>, raw: Seq<u8>) -> Option<Seq<u8>> {
    Some(raw)
}

/// What a buffer keeps after a run of frames was stored.
pub open spec fn kept_after_run(kept: Option<Seq<u8>>, frames: Seq<Seq<u8>>) -> Option<Seq<u8>>
    decreases frames.len(),
{
    if frames.len() == 0 {
        kept
    } else {
        kept_after(kept_after_run(kept, frames.drop_last()), frames.last())
    }
}

/// Of the frames that were stored one after the other a buffer keeps the latest, in full.
pub proof fn law_latest_frame_is_kept(kept: Option<Seq<u8>>, frames: Seq<Seq<u8>>)
    requires
        frames.len() > 0,
    ensures
        kept_after_run(kept, frames) == Some(frames[frames.len() - 1]),
{
}

/// A processor pauses a twentieth of a second after a packet that could not be sent.
pub proof fn law_processor_pauses_fifty_milliseconds()
    ensures
        20 * PROCESSOR_PAUSE_MS == 1000,
{
}

/// What a processor has counted after a frame.
pub open spec fn processor_after(
    processor: Processor,
    payload: Option<json::JsonModel>,
) -> (nat, nat) {
    (
        if payload is None {
            (processor.decode_fail_count + 1) as nat
        } else {
            processor.decode_fail_count as nat
        },
        if lacks_u(payload) {
            (processor.missing_u_count + 1) as nat
        } else {
            processor.missing_u_count as nat
        },
    )
}

/// A frame without a payload is one more on the first count, and a payload without a readable `u`
/// one more on the second; any other frame is counted on neither.
pub proof fn law_losses_are_counted(processor: Processor, payload: json::JsonModel)
    ensures
        processor_after(processor, None) == (
            (processor.decode_fail_count + 1) as nat,
            processor.missing_u_count as nat,
        ),
        ({
            let id = match json::member(payload, "u"@) {
                Some(value) => json::u64_reading(value),
                None => None,
            };
            let after = processor_after(processor, Some(payload));
            &&& after.0 == processor.decode_fail_count
            &&& id is None ==> after.1 == processor.missing_u_count + 1
            &&& id is Some ==> after.1 == processor.missing_u_count
        }),
{
}

} // verus!
