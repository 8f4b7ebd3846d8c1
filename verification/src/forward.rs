//! From a book-ticker payload to the packet that is sent on.

use crate::clock;
use crate::clock::{system_clock, truncate};
use crate::json;
use crate::json::{json_to_f64, json_to_u64, FloatSource, Json};
use crate::monitor;
use crate::monitor::RelayCounters;
use crate::packet;
use crate::packet::{encode_packet, Quote};
use crate::symbol;
use crate::symbol::normalize_symbol;
use crate::text::same_text;
use vstd::prelude::*;
use vstd::utf8::*;

verus! {

/// A payload that belongs to the relay, as mathematics.
pub struct PendingModel {
    pub exchange_ts: u64,
    pub bid_price: Option<json::FloatModel>,
    pub bid_size: Option<json::FloatModel>,
    pub ask_price: Option<json::FloatModel>,
    pub ask_size: Option<json::FloatModel>,
}

/// A payload that belongs to the relay: its timestamp, and where its floats are to be had from.
pub struct Pending {
    pub exchange_ts: u64,
    pub bid_price: Option<FloatSource>,
    pub bid_size: Option<FloatSource>,
    pub ask_price: Option<FloatSource>,
    pub ask_size: Option<FloatSource>,
}

/// The mathematics of an optional source.
pub open spec fn source_view(source: Option<FloatSource>) -> Option<json::FloatModel> {
    match source {
        Some(source) => Some(source@),
        None => None,
    }
}

impl View for Pending {
    type V = PendingModel;

    open spec fn view(&self) -> PendingModel {
        PendingModel {
            exchange_ts: self.exchange_ts,
            bid_price: source_view(self.bid_price),
            bid_size: source_view(self.bid_size),
            ask_price: source_view(self.ask_price),
            ask_size: source_view(self.ask_size),
        }
    }
}

/// The unsigned integer in a member.
pub open spec fn u64_member(payload: json::JsonModel, key: Seq<char>) -> Option<u64> {
    match json::member(payload, key) {
        Some(value) => json::u64_reading(value),
        None => None,
    }
}

/// Where the float in a member is to be had from.
pub open spec fn f64_member(payload: json::JsonModel, key: Seq<char>) -> Option<json::FloatModel> {
    match json::member(payload, key) {
        Some(value) => json::f64_reading(value),
        None => None,
    }
}

/// The symbol that a payload names, in the form in which symbols are compared.
pub open spec fn payload_symbol(payload: json::JsonModel) -> Option<Seq<char>> {
    match json::member(payload, "s"@) {
        Some(json::JsonModel::Text(text)) => Some(symbol::normalized(text)),
        _ => None,
    }
}

/// The complaint about a payload of another symbol.
pub open spec fn unexpected_symbol(found: Seq<char>, relay_symbol: Seq<char>) -> Seq<char> {
    "unexpected symbol "@ + found + " on "@ + relay_symbol + " relay"@
}

/// What comes of looking at a payload: its parts, or the first complaint.
pub open spec fn pending_of(relay_symbol: Seq<char>, payload: json::JsonModel) -> Result<
    PendingModel,
    Seq<char>,
> {
    match payload_symbol(payload) {
        None => Err("missing symbol"@),
        Some(found) => if found != relay_symbol {
            Err(unexpected_symbol(found, relay_symbol))
        } else {
            match u64_member(payload, "E"@) {
                None => Err("missing exchange timestamp"@),
                Some(exchange_ts) => Ok(
                    PendingModel {
                        exchange_ts,
                        bid_price: f64_member(payload, "b"@),
                        bid_size: f64_member(payload, "B"@),
                        ask_price: f64_member(payload, "a"@),
                        ask_size: f64_member(payload, "A"@),
                    },
                ),
            }
        },
    }
}

/// Reads an unsigned integer off a member.
pub fn member_u64(payload: &Json, key: &str) -> (r: Option<u64>)
    ensures
        r == u64_member(payload@, key@),
{
    match payload.get(key) {
        Some(value) => json_to_u64(value),
        None => None,
    }
}

/// Finds where the float in a member is to be had from.
fn member_f64(payload: &Json, key: &str) -> (r: Option<FloatSource>)
    ensures
        source_view(r) == f64_member(payload@, key@),
{
    match payload.get(key) {
        Some(value) => json_to_f64(value),
        None => None,
    }
}

/// Looks at a payload for the relay of a symbol.
pub fn prepare_forward(relay_symbol: &str, payload: &Json) -> (r: Result<Pending, String>)
    ensures
        match r {
            Ok(pending) => pending_of(relay_symbol@, payload@) == Ok::<PendingModel, Seq<char>>(
                pending@,
            ),
            Err(message) => pending_of(relay_symbol@, payload@) == Err::<PendingModel, Seq<char>>(
                message@,
            ),
        },
{
    let named = match payload.get("s") {
        Some(value) => value.as_str(),
        None => None,
    };
    let found = match named {
        Some(text) => normalize_symbol(text),
        None => return Err(String::from_str("missing symbol")),
    };
    if !same_text(found.as_str(), relay_symbol) {
        let mut message = String::from_str("unexpected symbol ");
        message.append(found.as_str());
        message.append(" on ");
        message.append(relay_symbol);
        message.append(" relay");
        return Err(message);
    }
    let exchange_ts = match member_u64(payload, "E") {
        Some(exchange_ts) => exchange_ts,
        None => return Err(String::from_str("missing exchange timestamp")),
    };
    Ok(
        Pending {
            exchange_ts,
            bid_price: member_f64(payload, "b"),
            bid_size: member_f64(payload, "B"),
            ask_price: member_f64(payload, "a"),
            ask_size: member_f64(payload, "A"),
        },
    )
}

/// What came of converting the four float sources of a payload: the bits, or nothing where
/// there was nothing to convert or the text was no number.
#[derive(Clone, Copy)]
pub struct Converted {
    pub bid_price: Option<u64>,
    pub bid_size: Option<u64>,
    pub ask_price: Option<u64>,
    pub ask_size: Option<u64>,
}

/// The bits of a float: those of the source where it knows them, else what the conversion gave.
pub open spec fn float_bits(source: Option<json::FloatModel>, converted: Option<u64>) -> Option<
    u64,
> {
    match source {
        None => None,
        Some(json::FloatModel::Bits(bits)) => Some(bits),
        Some(_) => converted,
    }
}

/// Settles the bits of a float.
fn settle(source: &Option<FloatSource>, converted: Option<u64>) -> (r: Option<u64>)
    ensures
        r == float_bits(source_view(*source), converted),
{
    match source {
        None => None,
        Some(FloatSource::Bits(bits)) => Some(*bits),
        Some(_) => converted,
    }
}

/// What comes of the parts of a payload: the packet, or the first complaint.
pub open spec fn packet_of(
    relay_symbol: Seq<char>,
    pending: PendingModel,
    converted: Converted,
    reading: Result<u128, String>,
    u_value: u64,
) -> Result<Seq<u8>, Seq<char>> {
    let bid_price = float_bits(pending.bid_price, converted.bid_price);
    let bid_size = float_bits(pending.bid_size, converted.bid_size);
    let ask_price = float_bits(pending.ask_price, converted.ask_price);
    let ask_size = float_bits(pending.ask_size, converted.ask_size);
    if bid_price is None {
        Err("missing bid price"@)
    } else if bid_size is None {
        Err("missing bid size"@)
    } else if ask_price is None {
        Err("missing ask price"@)
    } else if ask_size is None {
        Err("missing ask size"@)
    } else {
        match reading {
            Err(message) => Err(message@),
            Ok(nanos) => Ok(
                packet::packet_bytes(
                    relay_symbol,
                    Quote {
                        exchange_ts: pending.exchange_ts,
                        server_clock_ns: clock::low_64(nanos as int),
                        bid_price: bid_price->0,
                        bid_size: bid_size->0,
                        ask_price: ask_price->0,
                        ask_size: ask_size->0,
                        u_value,
                    },
                ),
            ),
        }
    }
}

/// Whether a result says what `packet_of` says.
pub open spec fn says(r: Result<Vec<u8>, String>, expected: Result<Seq<u8>, Seq<char>>) -> bool {
    match r {
        Ok(packet) => expected == Ok::<Seq<u8>, Seq<char>>(packet@),
        Err(message) => expected == Err::<Seq<u8>, Seq<char>>(message@),
    }
}

/// Builds the packet of a payload for a clock reading.
pub fn finish_forward(
    relay_symbol: &str,
    pending: &Pending,
    converted: &Converted,
    reading: Result<u128, String>,
    u_value: u64,
) -> (r: Result<Vec<u8>, String>)
    ensures
        says(r, packet_of(relay_symbol@, pending@, *converted, reading, u_value)),
{
    let bid_price = match settle(&pending.bid_price, converted.bid_price) {
        Some(bits) => bits,
        None => return Err(String::from_str("missing bid price")),
    };
    let bid_size = match settle(&pending.bid_size, converted.bid_size) {
        Some(bits) => bits,
        None => return Err(String::from_str("missing bid size")),
    };
    let ask_price = match settle(&pending.ask_price, converted.ask_price) {
        Some(bits) => bits,
        None => return Err(String::from_str("missing ask price")),
    };
    let ask_size = match settle(&pending.ask_size, converted.ask_size) {
        Some(bits) => bits,
        None => return Err(String::from_str("missing ask size")),
    };
    let nanos = match reading {
        Ok(nanos) => nanos,
        Err(message) => return Err(message),
    };
    let quote = Quote {
        exchange_ts: pending.exchange_ts,
        server_clock_ns: truncate(nanos),
        bid_price,
        bid_size,
        ask_price,
        ask_size,
        u_value,
    };
    Ok(encode_packet(relay_symbol, &quote))
}

/// Builds the packet of a payload at the present time.
pub fn forward_udp(
    relay_symbol: &str,
    pending: &Pending,
    converted: &Converted,
    u_value: u64,
) -> (r: Result<Vec<u8>, String>)
    ensures
        exists|reading: Result<u128, String>|
            says(r, #[trigger] packet_of(relay_symbol@, pending@, *converted, reading, u_value)),
{
    finish_forward(relay_symbol, pending, converted, system_clock(), u_value)
}

/// A packet goes out only for a payload of the relay's own symbol, and carries that symbol, the
/// payload's timestamp, the floats that the payload gives and the update id.
pub proof fn law_packet_carries_payload(
    relay_symbol: Seq<char>,
    payload: json::JsonModel,
    converted: Converted,
    reading: Result<u128, String>,
    u_value: u64,
)
    requires
        pending_of(relay_symbol, payload) is Ok,
        packet_of(
            relay_symbol,
            pending_of(relay_symbol, payload)->Ok_0,
            converted,
            reading,
            u_value,
        ) is Ok,
    ensures
        ({
            let bytes = packet_of(
                relay_symbol,
                pending_of(relay_symbol, payload)->Ok_0,
                converted,
                reading,
                u_value,
            )->Ok_0;
            &&& payload_symbol(payload) == Some(relay_symbol)
            &&& bytes.len() == packet::PACKET_SIZE
            &&& bytes.subrange(0, 16) == packet::symbol_field(relay_symbol)
            &&& u64_member(payload, "E"@) == Some(packet::number_at(bytes, 16))
            &&& reading is Ok
            &&& packet::number_at(bytes, 24) == clock::low_64(reading->Ok_0 as int)
            &&& float_bits(f64_member(payload, "b"@), converted.bid_price) == Some(
                packet::number_at(bytes, 32),
            )
            &&& float_bits(f64_member(payload, "B"@), converted.bid_size) == Some(
                packet::number_at(bytes, 40),
            )
            &&& float_bits(f64_member(payload, "a"@), converted.ask_price) == Some(
                packet::number_at(bytes, 48),
            )
            &&& float_bits(f64_member(payload, "A"@), converted.ask_size) == Some(
                packet::number_at(bytes, 56),
            )
            &&& packet::number_at(bytes, 64) == u_value
        }),
{
    let pending = pending_of(relay_symbol, payload)->Ok_0;
    packet::law_packet_reads_back(
        relay_symbol,
        Quote {
            exchange_ts: pending.exchange_ts,
            server_clock_ns: clock::low_64(reading->Ok_0 as int),
            bid_price: float_bits(pending.bid_price, converted.bid_price)->0,
            bid_size: float_bits(pending.bid_size, converted.bid_size)->0,
            ask_price: float_bits(pending.ask_price, converted.ask_price)->0,
            ask_size: float_bits(pending.ask_size, converted.ask_size)->0,
            u_value,
        },
    );
}

/// Takes what came of a payload, the first complaint or the outcome of the send, and counts the
/// packet exactly where it was sent.
pub fn conclude_forward(counters: &mut RelayCounters, outcome: Result<(), String>) -> (r: Result<
    (),
    String,
>)
    ensures
        r == outcome,
        *final(counters) == monitor::counters_after(*old(counters), outcome is Ok),
{
    if outcome.is_ok() {
        counters.count_sent();
    }
    outcome
}

/// All that decides what comes of one payload.
pub struct Attempt {
    pub payload: json::JsonModel,
    pub converted: Converted,
    pub reading: Result<u128, String>,
    pub u_value: u64,
    /// What comes of the send, where it comes to one.
    pub sent: Result<(), Seq<char>>,
}

/// The packet of a payload, or the first complaint.
pub open spec fn attempt_packet(relay_symbol: Seq<char>, attempt: Attempt) -> Result<
    Seq<u8>,
    Seq<char>,
> {
    match pending_of(relay_symbol, attempt.payload) {
        Ok(pending) => packet_of(
            relay_symbol,
            pending,
            attempt.converted,
            attempt.reading,
            attempt.u_value,
        ),
        Err(message) => Err(message),
    }
}

/// What comes of one payload: the first complaint, or the outcome of the send.
pub open spec fn attempt_outcome(relay_symbol: Seq<char>, attempt: Attempt) -> Result<
    (),
    Seq<char>,
> {
    match attempt_packet(relay_symbol, attempt) {
        Ok(_) => attempt.sent,
        Err(message) => Err(message),
    }
}

/// The packets that were sent in a run of payloads.
pub open spec fn packets_sent(relay_symbol: Seq<char>, attempts: Seq<Attempt>) -> Seq<Seq<u8>>
    decreases attempts.len(),
{
    if attempts.len() == 0 {
        Seq::empty()
    } else {
        let before = packets_sent(relay_symbol, attempts.drop_last());
        match attempt_packet(relay_symbol, attempts.last()) {
            Ok(bytes) => if attempts.last().sent is Ok {
                before.push(bytes)
            } else {
                before
            },
            Err(_) => before,
        }
    }
}

/// The counters after a run of payloads.
pub open spec fn counters_after_run(
    relay_symbol: Seq<char>,
    counters: RelayCounters,
    attempts: Seq<Attempt>,
) -> RelayCounters
    decreases attempts.len(),
{
    if attempts.len() == 0 {
        counters
    } else {
        monitor::counters_after(
            counters_after_run(relay_symbol, counters, attempts.drop_last()),
            attempt_outcome(relay_symbol, attempts.last()) is Ok,
        )
    }
}

/// How many payloads of a run came to a good end.
pub open spec fn successes(relay_symbol: Seq<char>, attempts: Seq<Attempt>) -> nat
    decreases attempts.len(),
{
    if attempts.len() == 0 {
        0
    } else {
        successes(relay_symbol, attempts.drop_last()) + if attempt_outcome(
            relay_symbol,
            attempts.last(),
        ) is Ok {
            1nat
        } else {
            0nat
        }
    }
}

/// Over any run of payloads, good ones, bad ones and failing sends, the sent count grows, in 64
/// bits, by the number of those that came to a good end, which is that of the packets sent. The
/// received count stays.
pub proof fn law_sent_packets_are_counted(
    relay_symbol: Seq<char>,
    counters: RelayCounters,
    attempts: Seq<Attempt>,
)
    ensures
        ({
            let after = counters_after_run(relay_symbol, counters, attempts);
            &&& after.messages_sent == clock::low_64(
                counters.messages_sent + successes(relay_symbol, attempts),
            )
            &&& after.messages_received == counters.messages_received
            &&& successes(relay_symbol, attempts) == packets_sent(relay_symbol, attempts).len()
        }),
    decreases attempts.len(),
{
    if attempts.len() > 0 {
        law_sent_packets_are_counted(relay_symbol, counters, attempts.drop_last());
    }
}

/// Whether these are the bits of the float in a member: the conversion of a text, or of a number
/// without float bits, gave them; or they are those of the number itself.
pub open spec fn is_float_of(
    member: Option<json::JsonModel>,
    converted: Option<u64>,
    bits: u64,
) -> bool {
    match member {
        Some(json::JsonModel::Text(_)) => converted == Some(bits),
        Some(json::JsonModel::Number { float_bits: Some(own), .. }) => bits == own,
        Some(json::JsonModel::Number { float_bits: None, unsigned: None, signed: None }) => false,
        Some(json::JsonModel::Number { float_bits: None, .. }) => converted == Some(bits),
        _ => false,
    }
}

/// What the packet of a payload holds. The payload names the relay's symbol; its first 16 bytes
/// are those of that symbol. Behind them stand the payload's timestamp, the clock's nanoseconds,
/// the four floats, each of them as the payload has it or as its conversion gave it, whatever
/// their bits are, and the update id.
pub proof fn law_packet_holds_the_floats_of_the_payload(
    relay_symbol: Seq<char>,
    payload: json::JsonModel,
    converted: Converted,
    nanos: u64,
    u_value: u64,
    floats: (u64, u64, u64, u64),
    exchange_ts: u64,
    named: Seq<char>,
)
    requires
        json::member(payload, "s"@) == Some(json::JsonModel::Text(named)),
        symbol::normalized(named) == relay_symbol,
        json::member(payload, "E"@) is Some,
        json::u64_reading(json::member(payload, "E"@)->0) == Some(exchange_ts),
        is_float_of(json::member(payload, "b"@), converted.bid_price, floats.0),
        is_float_of(json::member(payload, "B"@), converted.bid_size, floats.1),
        is_float_of(json::member(payload, "a"@), converted.ask_price, floats.2),
        is_float_of(json::member(payload, "A"@), converted.ask_size, floats.3),
    ensures
        ({
            let pending = pending_of(relay_symbol, payload);
            let packet = packet_of(
                relay_symbol,
                pending->Ok_0,
                converted,
                Ok(nanos as u128),
                u_value,
            );
            let bytes = packet->Ok_0;
            &&& pending is Ok
            &&& packet is Ok
            &&& bytes.len() == 72
            &&& vstd::bytes::spec_u64_from_le_bytes(bytes.subrange(16, 24)) == exchange_ts
            &&& vstd::bytes::spec_u64_from_le_bytes(bytes.subrange(24, 32)) == nanos
            &&& vstd::bytes::spec_u64_from_le_bytes(bytes.subrange(32, 40)) == floats.0
            &&& vstd::bytes::spec_u64_from_le_bytes(bytes.subrange(40, 48)) == floats.1
            &&& vstd::bytes::spec_u64_from_le_bytes(bytes.subrange(48, 56)) == floats.2
            &&& vstd::bytes::spec_u64_from_le_bytes(bytes.subrange(56, 64)) == floats.3
            &&& vstd::bytes::spec_u64_from_le_bytes(bytes.subrange(64, 72)) == u_value
            &&& forall|i: int|
                0 <= i < 16 ==> #[trigger] bytes[i] == (if i < encode_utf8(relay_symbol).len() {
                    encode_utf8(relay_symbol)[i]
                } else {
                    0
                })
        }),
{
    let pending = pending_of(relay_symbol, payload)->Ok_0;
    let quote = Quote {
        exchange_ts,
        server_clock_ns: nanos,
        bid_price: floats.0,
        bid_size: floats.1,
        ask_price: floats.2,
        ask_size: floats.3,
        u_value,
    };
    let bytes = packet::packet_bytes(relay_symbol, quote);
    clock::law_cast_drops_multiples(nanos, 0);
    assert(packet_of(relay_symbol, pending, converted, Ok(nanos as u128), u_value) == Ok::<
        Seq<u8>,
        Seq<char>,
    >(bytes));
    packet::law_packet_byte_by_byte(relay_symbol, quote, 0);
    vstd::bytes::lemma_auto_spec_u64_to_from_le_bytes();
    assert forall|i: int| 0 <= i < 16 implies #[trigger] bytes[i] == (if i < encode_utf8(
        relay_symbol,
    ).len() {
        encode_utf8(relay_symbol)[i]
    } else {
        0
    }) by {
        packet::law_packet_byte_by_byte(relay_symbol, quote, i);
    }
}

/// The complaints about a payload itself, the first that fits: no text under `s`; a symbol that is
/// not the relay's, with both named; no timestamp under `E`. A payload without those is taken.
pub proof fn law_first_complaint_about_a_payload(relay_symbol: Seq<char>, payload: json::JsonModel)
    ensures
        ({
            let pending = pending_of(relay_symbol, payload);
            match json::member(payload, "s"@) {
                Some(json::JsonModel::Text(named)) => if symbol::normalized(named)
                    != relay_symbol {
                    pending == Err::<PendingModel, Seq<char>>(
                        "unexpected symbol "@ + symbol::normalized(named) + " on "@ + relay_symbol
                            + " relay"@,
                    )
                } else {
                    match json::member(payload, "E"@) {
                        Some(value) => match json::u64_reading(value) {
                            Some(exchange_ts) => pending is Ok && pending->Ok_0.exchange_ts
                                == exchange_ts,
                            None => pending == Err::<PendingModel, Seq<char>>(
                                "missing exchange timestamp"@,
                            ),
                        },
                        None => pending == Err::<PendingModel, Seq<char>>(
                            "missing exchange timestamp"@,
                        ),
                    }
                },
                _ => pending == Err::<PendingModel, Seq<char>>("missing symbol"@),
            }
        }),
{
}

/// The complaints about the floats of a payload that is taken, the first that fits: a price or a
/// size that is missing, or whose text is no number, in the order of the packet; and last the
/// clock.
pub proof fn law_first_complaint_about_the_floats(
    relay_symbol: Seq<char>,
    payload: json::JsonModel,
    converted: Converted,
    reading: Result<u128, String>,
    u_value: u64,
)
    requires
        pending_of(relay_symbol, payload) is Ok,
    ensures
        ({
            let packet = packet_of(
                relay_symbol,
                pending_of(relay_symbol, payload)->Ok_0,
                converted,
                reading,
                u_value,
            );
            if forall|x: u64|
                !#[trigger] is_float_of(json::member(payload, "b"@), converted.bid_price, x) {
                packet == Err::<Seq<u8>, Seq<char>>("missing bid price"@)
            } else if forall|x: u64|
                !#[trigger] is_float_of(json::member(payload, "B"@), converted.bid_size, x) {
                packet == Err::<Seq<u8>, Seq<char>>("missing bid size"@)
            } else if forall|x: u64|
                !#[trigger] is_float_of(json::member(payload, "a"@), converted.ask_price, x) {
                packet == Err::<Seq<u8>, Seq<char>>("missing ask price"@)
            } else if forall|x: u64|
                !#[trigger] is_float_of(json::member(payload, "A"@), converted.ask_size, x) {
                packet == Err::<Seq<u8>, Seq<char>>("missing ask size"@)
            } else {
                match reading {
                    Err(message) => packet == Err::<Seq<u8>, Seq<char>>(message@),
                    Ok(_) => packet is Ok,
                }
            }
        }),
{
    lemma_float_of(json::member(payload, "b"@), converted.bid_price);
    lemma_float_of(json::member(payload, "B"@), converted.bid_size);
    lemma_float_of(json::member(payload, "a"@), converted.ask_price);
    lemma_float_of(json::member(payload, "A"@), converted.ask_size);
}

/// A member has a float exactly where its bits are settled.
proof fn lemma_float_of(member: Option<json::JsonModel>, converted: Option<u64>)
    ensures
        ({
            let source = match member {
                Some(value) => json::f64_reading(value),
                None => None,
            };
            match float_bits(source, converted) {
                Some(bits) => is_float_of(member, converted, bits),
                None => forall|x: u64| !#[trigger] is_float_of(member, converted, x),
            }
        }),
{
}

/// A payload that is taken hands each of its floats over for conversion as it stands there: the
/// prices from `b` and `a`, the sizes from `B` and `A`, each text in full and each number with its
/// own value.
pub proof fn law_floats_come_from_their_own_members(
    relay_symbol: Seq<char>,
    payload: json::JsonModel,
    text: Seq<char>,
    bits: u64,
    unsigned: Option<u64>,
    signed: Option<i64>,
)
    requires
        pending_of(relay_symbol, payload) is Ok,
    ensures
        ({
            let pending = pending_of(relay_symbol, payload)->Ok_0;
            let written = Some(json::JsonModel::Text(text));
            let number = Some(
                json::JsonModel::Number { unsigned, signed, float_bits: Some(bits) },
            );
            &&& json::member(payload, "b"@) == written ==> pending.bid_price == Some(
                json::FloatModel::Text(text),
            )
            &&& json::member(payload, "B"@) == written ==> pending.bid_size == Some(
                json::FloatModel::Text(text),
            )
            &&& json::member(payload, "a"@) == written ==> pending.ask_price == Some(
                json::FloatModel::Text(text),
            )
            &&& json::member(payload, "A"@) == written ==> pending.ask_size == Some(
                json::FloatModel::Text(text),
            )
            &&& json::member(payload, "b"@) == number ==> pending.bid_price == Some(
                json::FloatModel::Bits(bits),
            )
            &&& json::member(payload, "B"@) == number ==> pending.bid_size == Some(
                json::FloatModel::Bits(bits),
            )
            &&& json::member(payload, "a"@) == number ==> pending.ask_price == Some(
                json::FloatModel::Bits(bits),
            )
            &&& json::member(payload, "A"@) == number ==> pending.ask_size == Some(
                json::FloatModel::Bits(bits),
            )
            &&& json::member(payload, "b"@) is None ==> pending.bid_price is None
            &&& json::member(payload, "B"@) is None ==> pending.bid_size is None
            &&& json::member(payload, "a"@) is None ==> pending.ask_price is None
            &&& json::member(payload, "A"@) is None ==> pending.ask_size is None
        }),
{
}

} // verus!
