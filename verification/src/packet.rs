//! The UDP packet of one book-ticker update.

use vstd::bytes::*;
use vstd::prelude::*;
use vstd::utf8::*;

verus! {

pub const SYMBOL_SIZE: usize = 16;

pub const PACKET_SIZE: usize = SYMBOL_SIZE + 8 + 8 + 8 * 5;

/// The numbers of one update. Prices and sizes are the bits of 64-bit floats.
#[derive(Clone, Copy)]
pub struct Quote {
    pub exchange_ts: u64,
    pub server_clock_ns: u64,
    pub bid_price: u64,
    pub bid_size: u64,
    pub ask_price: u64,
    pub ask_size: u64,
    pub u_value: u64,
}

/// The first bytes of a symbol's UTF-8 form, filled up with zeros.
pub open spec fn symbol_field(symbol: Seq<char>) -> Seq<u8> {
    let bytes = encode_utf8(symbol);
    Seq::new(
        SYMBOL_SIZE as nat,
        |i: int|
            if i < bytes.len() {
                bytes[i]
            } else {
                0
            },
    )
}

/// The packet: the symbol, then seven little-endian numbers.
pub open spec fn packet_bytes(symbol: Seq<char>, quote: Quote) -> Seq<u8> {
    symbol_field(symbol) + spec_u64_to_le_bytes(quote.exchange_ts) + spec_u64_to_le_bytes(
        quote.server_clock_ns,
    ) + spec_u64_to_le_bytes(quote.bid_price) + spec_u64_to_le_bytes(quote.bid_size)
        + spec_u64_to_le_bytes(quote.ask_price) + spec_u64_to_le_bytes(quote.ask_size)
        + spec_u64_to_le_bytes(quote.u_value)
}

/// Appends a number in little-endian order.
fn push_number(packet: &mut Vec<u8>, number: u64)
    ensures
        final(packet)@ == old(packet)@ + spec_u64_to_le_bytes(number),
{
    let mut bytes = u64_to_le_bytes(number);
    packet.append(&mut bytes);
}

/// Writes the packet of one update.
pub fn encode_packet(symbol: &str, quote: &Quote) -> (r: Vec<u8>)
    ensures
        r@ == packet_bytes(symbol@, *quote),
        r.len() == PACKET_SIZE,
{
    let bytes = symbol.as_bytes();
    let mut packet: Vec<u8> = Vec::new();
    while packet.len() < SYMBOL_SIZE
        invariant
            bytes@ == encode_utf8(symbol@),
            packet.len() <= SYMBOL_SIZE,
            packet@ == symbol_field(symbol@).take(packet.len() as int),
        decreases SYMBOL_SIZE - packet.len(),
    {
        let ghost n = packet.len() as int;
        assert(symbol_field(symbol@).take(n + 1) =~= symbol_field(symbol@).take(n).push(
            symbol_field(symbol@)[n],
        ));
        if packet.len() < bytes.len() {
            packet.push(bytes[packet.len()]);
        } else {
            packet.push(0);
        }
    }
    assert(packet@ =~= symbol_field(symbol@));
    push_number(&mut packet, quote.exchange_ts);
    push_number(&mut packet, quote.server_clock_ns);
    push_number(&mut packet, quote.bid_price);
    push_number(&mut packet, quote.bid_size);
    push_number(&mut packet, quote.ask_price);
    push_number(&mut packet, quote.ask_size);
    push_number(&mut packet, quote.u_value);
    proof {
        lemma_auto_spec_u64_to_from_le_bytes();
    }
    packet
}

/// The little-endian number that stands at an offset.
pub open spec fn number_at(packet: Seq<u8>, offset: int) -> u64 {
    spec_u64_from_le_bytes(packet.subrange(offset, offset + 8))
}

/// A packet has 72 bytes, and every part of it can be read back: the symbol from the first 16
/// bytes, and each number from its own 8 bytes.
pub proof fn law_packet_reads_back(symbol: Seq<char>, quote: Quote)
    ensures
        packet_bytes(symbol, quote).len() == 72,
        packet_bytes(symbol, quote).subrange(0, 16) == symbol_field(symbol),
        number_at(packet_bytes(symbol, quote), 16) == quote.exchange_ts,
        number_at(packet_bytes(symbol, quote), 24) == quote.server_clock_ns,
        number_at(packet_bytes(symbol, quote), 32) == quote.bid_price,
        number_at(packet_bytes(symbol, quote), 40) == quote.bid_size,
        number_at(packet_bytes(symbol, quote), 48) == quote.ask_price,
        number_at(packet_bytes(symbol, quote), 56) == quote.ask_size,
        number_at(packet_bytes(symbol, quote), 64) == quote.u_value,
{
    lemma_auto_spec_u64_to_from_le_bytes();
    let packet = packet_bytes(symbol, quote);
    assert(packet.subrange(0, 16) =~= symbol_field(symbol));
    assert(packet.subrange(16, 24) =~= spec_u64_to_le_bytes(quote.exchange_ts));
    assert(packet.subrange(24, 32) =~= spec_u64_to_le_bytes(quote.server_clock_ns));
    assert(packet.subrange(32, 40) =~= spec_u64_to_le_bytes(quote.bid_price));
    assert(packet.subrange(40, 48) =~= spec_u64_to_le_bytes(quote.bid_size));
    assert(packet.subrange(48, 56) =~= spec_u64_to_le_bytes(quote.ask_price));
    assert(packet.subrange(56, 64) =~= spec_u64_to_le_bytes(quote.ask_size));
    assert(packet.subrange(64, 72) =~= spec_u64_to_le_bytes(quote.u_value));
}

/// Whether a symbol fits into its field and leaves no doubt where it ends.
pub open spec fn symbol_fits(symbol: Seq<char>) -> bool {
    &&& encode_utf8(symbol).len() <= SYMBOL_SIZE
    &&& forall|i: int| 0 <= i < encode_utf8(symbol).len() ==> encode_utf8(symbol)[i] != 0
}

/// Two symbols that fit into the field and give the same packet are the same symbol.
pub proof fn law_symbol_reads_back(a: Seq<char>, b: Seq<char>, quote_a: Quote, quote_b: Quote)
    requires
        symbol_fits(a),
        symbol_fits(b),
        packet_bytes(a, quote_a) == packet_bytes(b, quote_b),
    ensures
        a == b,
        quote_a == quote_b,
{
    law_packet_reads_back(a, quote_a);
    law_packet_reads_back(b, quote_b);
    let left = encode_utf8(a);
    let right = encode_utf8(b);
    assert(symbol_field(a) == symbol_field(b));
    if left.len() < right.len() {
        assert(symbol_field(a)[left.len() as int] == 0);
        assert(symbol_field(b)[left.len() as int] == right[left.len() as int]);
    }
    if right.len() < left.len() {
        assert(symbol_field(b)[right.len() as int] == 0);
        assert(symbol_field(a)[right.len() as int] == left[right.len() as int]);
    }
    assert forall|i: int| 0 <= i < left.len() implies left[i] == right[i] by {
        assert(symbol_field(a)[i] == left[i]);
        assert(symbol_field(b)[i] == right[i]);
    }
    assert(left =~= right);
    encode_utf8_decode_utf8(a);
    encode_utf8_decode_utf8(b);
}

/// The bytes of a packet. The first 16 are those of the symbol in UTF-8, one by one, as far as
/// they go and 16 reach, and zeros behind. Each number stands in its place, the lowest byte first.
pub proof fn law_packet_byte_by_byte(symbol: Seq<char>, quote: Quote, i: int)
    requires
        0 <= i < 16,
    ensures
        packet_bytes(symbol, quote).len() == 72,
        i < encode_utf8(symbol).len() ==> packet_bytes(symbol, quote)[i] == encode_utf8(symbol)[i],
        i >= encode_utf8(symbol).len() ==> packet_bytes(symbol, quote)[i] == 0,
        packet_bytes(symbol, quote).subrange(16, 24) == spec_u64_to_le_bytes(quote.exchange_ts),
        packet_bytes(symbol, quote).subrange(24, 32) == spec_u64_to_le_bytes(
            quote.server_clock_ns,
        ),
        packet_bytes(symbol, quote).subrange(32, 40) == spec_u64_to_le_bytes(quote.bid_price),
        packet_bytes(symbol, quote).subrange(40, 48) == spec_u64_to_le_bytes(quote.bid_size),
        packet_bytes(symbol, quote).subrange(48, 56) == spec_u64_to_le_bytes(quote.ask_price),
        packet_bytes(symbol, quote).subrange(56, 64) == spec_u64_to_le_bytes(quote.ask_size),
        packet_bytes(symbol, quote).subrange(64, 72) == spec_u64_to_le_bytes(quote.u_value),
{
    lemma_auto_spec_u64_to_from_le_bytes();
    let packet = packet_bytes(symbol, quote);
    assert(packet[i] == symbol_field(symbol)[i]);
    assert(packet.subrange(16, 24) =~= spec_u64_to_le_bytes(quote.exchange_ts));
    assert(packet.subrange(24, 32) =~= spec_u64_to_le_bytes(quote.server_clock_ns));
    assert(packet.subrange(32, 40) =~= spec_u64_to_le_bytes(quote.bid_price));
    assert(packet.subrange(40, 48) =~= spec_u64_to_le_bytes(quote.bid_size));
    assert(packet.subrange(48, 56) =~= spec_u64_to_le_bytes(quote.ask_price));
    assert(packet.subrange(56, 64) =~= spec_u64_to_le_bytes(quote.ask_size));
    assert(packet.subrange(64, 72) =~= spec_u64_to_le_bytes(quote.u_value));
}

} // verus!
