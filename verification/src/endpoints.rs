//! The WebSocket endpoints of the futures feed and the connections made to them.

use crate::json;
use crate::json::{object_text, Field};
use crate::text;
use crate::text::{decimal_text, same_text};
use vstd::prelude::*;

verus! {

pub const OLD_BINANCE_URI: &'static str = "wss://fstream.binance.com/ws";

pub const NEW_BINANCE_URI: &'static str = "wss://fstream.binance.com/public/ws";

pub const STREAM_BINANCE_URI: &'static str = "wss://fstream.binance.com/stream";

/// One connection of the relay.
pub struct ConnectionRelay {
    pub symbol: String,
    pub endpoint_name: &'static str,
    pub base_uri: &'static str,
    pub connection_id: usize,
}

/// The name under which a connection is reported.
pub open spec fn connection_name(endpoint: Seq<char>, id: nat, symbol: Seq<char>) -> Seq<char> {
    endpoint + "-"@ + text::decimal(id) + "-"@ + symbol
}

impl ConnectionRelay {
    /// The name under which the connection is reported.
    pub fn name(&self) -> (r: String)
        ensures
            r@ == connection_name(self.endpoint_name@, self.connection_id as nat, self.symbol@),
    {
        let mut name = String::from_str(self.endpoint_name);
        name.append("-");
        name.append(decimal_text(self.connection_id as u64).as_str());
        name.append("-");
        name.append(self.symbol.as_str());
        name
    }
}

/// Where to connect: the combined endpoint takes its streams by request, the others in the path.
pub open spec fn uri_of(base_uri: Seq<char>, stream_name: Seq<char>) -> Seq<char> {
    if base_uri == STREAM_BINANCE_URI@ {
        base_uri
    } else {
        base_uri + "/"@ + stream_name
    }
}

/// Builds the URI of a connection.
pub fn build_uri(base_uri: &str, stream_name: &str) -> (r: String)
    ensures
        r@ == uri_of(base_uri@, stream_name@),
{
    let mut uri = String::from_str(base_uri);
    if !same_text(base_uri, STREAM_BINANCE_URI) {
        uri.append("/");
        uri.append(stream_name);
    }
    uri
}

/// The endpoints by name and URI, each with the number of its connections.
pub const ENDPOINT_LAYOUT: [(&'static str, &'static str, usize); 3] = [
    ("new", NEW_BINANCE_URI, 3),
    ("old", OLD_BINANCE_URI, 1),
    ("stream", STREAM_BINANCE_URI, 1),
];

/// What a connection is, as mathematics.
pub struct ConnectionModel {
    pub symbol: Seq<char>,
    pub endpoint_name: Seq<char>,
    pub base_uri: Seq<char>,
    pub connection_id: nat,
}

impl View for ConnectionRelay {
    type V = ConnectionModel;

    open spec fn view(&self) -> ConnectionModel {
        ConnectionModel {
            symbol: self.symbol@,
            endpoint_name: self.endpoint_name@,
            base_uri: self.base_uri@,
            connection_id: self.connection_id as nat,
        }
    }
}

/// The connection of an endpoint with that number.
pub open spec fn planned(
    symbol: Seq<char>,
    endpoint_name: Seq<char>,
    base_uri: Seq<char>,
    connection_id: nat,
) -> ConnectionModel {
    ConnectionModel { symbol, endpoint_name, base_uri, connection_id }
}

/// The connections that a relay opens for a symbol: three to the new endpoint, one to the old
/// one and one to the combined one.
pub open spec fn relay_plan(symbol: Seq<char>) -> Seq<ConnectionModel> {
    seq![
        planned(symbol, "new"@, NEW_BINANCE_URI@, 1),
        planned(symbol, "new"@, NEW_BINANCE_URI@, 2),
        planned(symbol, "new"@, NEW_BINANCE_URI@, 3),
        planned(symbol, "old"@, OLD_BINANCE_URI@, 1),
        planned(symbol, "stream"@, STREAM_BINANCE_URI@, 1),
    ]
}

/// The connections of one endpoint, numbered from one.
spec fn endpoint_plan(
    endpoint: (&'static str, &'static str, usize),
    symbol: Seq<char>,
) -> Seq<ConnectionModel> {
    Seq::new(
        endpoint.2 as nat,
        |i: int|
            ConnectionModel {
                symbol,
                endpoint_name: endpoint.0@,
                base_uri: endpoint.1@,
                connection_id: (i + 1) as nat,
            },
    )
}

/// The connections of the first `n` endpoints, endpoint by endpoint.
spec fn plan_of(n: int, symbol: Seq<char>) -> Seq<ConnectionModel>
    decreases n,
{
    if n <= 0 {
        Seq::empty()
    } else {
        plan_of(n - 1, symbol) + endpoint_plan(ENDPOINT_LAYOUT@[n - 1], symbol)
    }
}

/// The layout gives the plan.
proof fn lemma_plan(symbol: Seq<char>)
    ensures
        plan_of(3, symbol) == relay_plan(symbol),
{
    reveal_with_fuel(plan_of, 4);
    let layout = ENDPOINT_LAYOUT@;
    assert(layout[0] == ("new", NEW_BINANCE_URI, 3usize));
    assert(layout[1] == ("old", OLD_BINANCE_URI, 1usize));
    assert(layout[2] == ("stream", STREAM_BINANCE_URI, 1usize));
    assert(plan_of(3, symbol) =~= relay_plan(symbol));
}

/// The connections that a relay opens for a symbol.
pub fn connection_plan(symbol: &str) -> (r: Vec<ConnectionRelay>)
    ensures
        r@.map_values(|c: ConnectionRelay| c@) == relay_plan(symbol@),
{
    let layout = ENDPOINT_LAYOUT;
    let mut plan: Vec<ConnectionRelay> = Vec::new();
    assert(plan@.map_values(|c: ConnectionRelay| c@) =~= plan_of(0, symbol@));
    let mut n: usize = 0;
    while n < 3
        invariant
            n <= 3,
            layout == ENDPOINT_LAYOUT,
            plan@.map_values(|c: ConnectionRelay| c@) == plan_of(n as int, symbol@),
        decreases 3 - n,
    {
        let (endpoint_name, base_uri, connection_count) = layout[n];
        let ghost done = plan_of(n as int, symbol@);
        let ghost more = endpoint_plan(ENDPOINT_LAYOUT@[n as int], symbol@);
        let mut opened: usize = 0;
        assert(done + more.take(0) =~= done);
        while opened < connection_count
            invariant
                opened <= connection_count,
                (endpoint_name, base_uri, connection_count) == ENDPOINT_LAYOUT@[n as int],
                more == endpoint_plan(ENDPOINT_LAYOUT@[n as int], symbol@),
                plan@.map_values(|c: ConnectionRelay| c@) == done + more.take(opened as int),
            decreases connection_count - opened,
        {
            opened += 1;
            let connection = ConnectionRelay {
                symbol: String::from_str(symbol),
                endpoint_name,
                base_uri,
                connection_id: opened,
            };
            let ghost before = plan@;
            plan.push(connection);
            assert(plan@.map_values(|c: ConnectionRelay| c@) =~= before.map_values(
                |c: ConnectionRelay| c@,
            ).push(connection@));
            assert(connection@ == more[opened - 1]);
            assert(more.take(opened as int) =~= more.take(opened - 1).push(more[opened - 1]));
            assert(done + more.take(opened as int) =~= (done + more.take(opened - 1)).push(
                more[opened - 1],
            ));
        }
        assert(more.take(more.len() as int) =~= more);
        n += 1;
    }
    proof {
        lemma_plan(symbol@);
    }
    plan
}

/// The members of the request for one stream.
pub open spec fn subscribe_members(stream_name: Seq<char>, id: u64) -> Seq<
    (Seq<char>, json::FieldModel),
> {
    seq![
        ("id"@, json::FieldModel::Unsigned(id)),
        ("method"@, json::FieldModel::Text("SUBSCRIBE"@)),
        ("params"@, json::FieldModel::Texts(seq![stream_name])),
    ]
}

/// The request for a stream whose name needs no escape.
pub open spec fn subscribe_text(stream_name: Seq<char>, id: u64) -> Seq<char> {
    "{\"id\":"@ + text::decimal(id as nat) + ",\"method\":\"SUBSCRIBE\",\"params\":[\""@
        + stream_name + "\"]}"@
}

/// The members of the request give its text.
proof fn lemma_subscribe_text(stream_name: Seq<char>, id: u64)
    ensures
        json::plain_object_json(subscribe_members(stream_name, id)) == subscribe_text(
            stream_name,
            id,
        ),
{
    reveal_strlit("{");
    reveal_strlit("}");
    reveal_strlit("[");
    reveal_strlit("]");
    reveal_strlit(":");
    reveal_strlit(",");
    reveal_strlit("\"");
    reveal_strlit("id");
    reveal_strlit("method");
    reveal_strlit("SUBSCRIBE");
    reveal_strlit("params");
    reveal_strlit("{\"id\":");
    reveal_strlit(",\"method\":\"SUBSCRIBE\",\"params\":[\"");
    reveal_strlit("\"]}");
    reveal_with_fuel(json::comma_joined, 4);
    let members = subscribe_members(stream_name, id);
    let parts = members.map_values(
        |member: (Seq<char>, json::FieldModel)| json::plain_member_json(member),
    );
    let first = json::plain_member_json(members[0]);
    let second = json::plain_member_json(members[1]);
    let third = json::plain_member_json(members[2]);
    assert(parts =~= seq![first, second, third]);
    assert(parts.drop_last() =~= seq![first, second]);
    assert(parts.drop_last().drop_last() =~= seq![first]);
    assert(json::comma_joined(parts) == first + ","@ + second + ","@ + third);
    let streams = seq![stream_name].map_values(|text: Seq<char>| json::quoted(text));
    assert(streams =~= seq![json::quoted(stream_name)]);
    assert(json::comma_joined(streams) == json::quoted(stream_name));
    assert("{"@ + (json::quoted("id"@) + ":"@) =~= "{\"id\":"@);
    assert(","@ + (json::quoted("method"@) + ":"@ + json::quoted("SUBSCRIBE"@)) + ","@ + (
    json::quoted("params"@) + ":"@ + "["@ + "\""@)
        =~= ",\"method\":\"SUBSCRIBE\",\"params\":[\""@);
    assert("\""@ + "]"@ + "}"@ =~= "\"]}"@);
    assert(json::plain_object_json(members) =~= ("{"@ + (json::quoted("id"@) + ":"@))
        + text::decimal(id as nat) + (","@ + (json::quoted("method"@) + ":"@ + json::quoted(
        "SUBSCRIBE"@,
    )) + ","@ + (json::quoted("params"@) + ":"@ + "["@ + "\""@)) + stream_name + ("\""@ + "]"@
        + "}"@));
}

/// Writes the request for one stream on a combined endpoint.
pub fn subscribe_message(stream_name: &str, id: u64) -> (r: String)
    ensures
        r@ == json::object_json(subscribe_members(stream_name@, id)),
        json::is_plain(stream_name@) ==> r@ == subscribe_text(stream_name@, id),
{
    let params = vec![String::from_str(stream_name)];
    let members = vec![
        (String::from_str("id"), Field::Unsigned(id)),
        (String::from_str("method"), Field::Text(String::from_str("SUBSCRIBE"))),
        (String::from_str("params"), Field::Texts(params)),
    ];
    proof {
        let models = json::members_view(members@);
        assert(params@.map_values(|t: String| t@) =~= seq![stream_name@]);
        assert(models =~= subscribe_members(stream_name@, id));
        reveal_strlit("id");
        reveal_strlit("method");
        reveal_strlit("SUBSCRIBE");
        reveal_strlit("params");
        assert(json::keys_ascend(models));
        if json::is_plain(stream_name@) {
            assert forall|i: int| 0 <= i < models.len() implies json::is_plain_member(
                #[trigger] models[i],
            ) by {}
            lemma_subscribe_text(stream_name@, id);
        }
    }
    object_text(members)
}

/// No two connections of a relay are reported under one name.
pub proof fn law_connection_names_distinct(symbol: Seq<char>, i: int, j: int)
    requires
        0 <= i < j < relay_plan(symbol).len(),
    ensures
        ({
            let a = relay_plan(symbol)[i];
            let b = relay_plan(symbol)[j];
            connection_name(a.endpoint_name, a.connection_id, symbol) != connection_name(
                b.endpoint_name,
                b.connection_id,
                symbol,
            )
        }),
{
    reveal_strlit("new");
    reveal_strlit("old");
    reveal_strlit("stream");
    reveal_strlit("-");
    let a = relay_plan(symbol)[i];
    let b = relay_plan(symbol)[j];
    let left = connection_name(a.endpoint_name, a.connection_id, symbol);
    let right = connection_name(b.endpoint_name, b.connection_id, symbol);
    assert(left[0] == a.endpoint_name[0]);
    assert(right[0] == b.endpoint_name[0]);
    if j < 3 {
        assert(left[4] == text::digit_char((i + 1) as nat));
        assert(right[4] == text::digit_char((j + 1) as nat));
    }
}

/// Every connection of a relay is for its symbol. Of the five, three go to the new endpoint, with
/// the numbers one to three, one to the old and one to the combined one.
pub proof fn law_five_connections(symbol: Seq<char>, i: int)
    requires
        0 <= i < relay_plan(symbol).len(),
    ensures
        relay_plan(symbol).len() == 5,
        ({
            let connection = relay_plan(symbol)[i];
            &&& connection.symbol == symbol
            &&& i < 3 ==> connection.endpoint_name == "new"@ && connection.base_uri
                == "wss://fstream.binance.com/public/ws"@ && connection.connection_id == i + 1
            &&& i == 3 ==> connection.endpoint_name == "old"@ && connection.base_uri
                == "wss://fstream.binance.com/ws"@ && connection.connection_id == 1
            &&& i == 4 ==> connection.endpoint_name == "stream"@ && connection.base_uri
                == "wss://fstream.binance.com/stream"@ && connection.connection_id == 1
        }),
{
}

/// The name of a connection begins with its endpoint and ends with its symbol; between them, with
/// a hyphen on either side, stands its number, which reads back.
pub proof fn law_name_reads_back(endpoint: Seq<char>, id: u64, symbol: Seq<char>)
    ensures
        ({
            let name = connection_name(endpoint, id as nat, symbol);
            let from = endpoint.len() as int + 1;
            let to = name.len() - symbol.len() - 1;
            &&& from <= to
            &&& name.take(endpoint.len() as int) == endpoint
            &&& name[from - 1] == '-'
            &&& text::parsed_u64(name.subrange(from, to)) == Some(id)
            &&& name[to] == '-'
            &&& name.skip(to + 1) == symbol
        }),
{
    reveal_strlit("-");
    text::law_decimal_round_trip(id);
    let name = connection_name(endpoint, id as nat, symbol);
    let from = endpoint.len() as int + 1;
    let to = name.len() - symbol.len() - 1;
    assert(name.take(endpoint.len() as int) =~= endpoint);
    assert(name.subrange(from, to) =~= text::decimal(id as nat));
    assert(name.skip(to + 1) =~= symbol);
}

/// The combined endpoint is reached as it is; every other one with a slash and the whole name of
/// the stream behind.
pub proof fn law_uri_names_the_stream(base_uri: Seq<char>, stream_name: Seq<char>)
    ensures
        base_uri == "wss://fstream.binance.com/stream"@ ==> uri_of(base_uri, stream_name)
            == base_uri,
        base_uri != "wss://fstream.binance.com/stream"@ ==> {
            let uri = uri_of(base_uri, stream_name);
            &&& uri.len() == base_uri.len() + 1 + stream_name.len()
            &&& uri.take(base_uri.len() as int) == base_uri
            &&& uri[base_uri.len() as int] == '/'
            &&& uri.skip(1int + base_uri.len()) == stream_name
        },
{
    reveal_strlit("/");
    if base_uri != "wss://fstream.binance.com/stream"@ {
        let uri = uri_of(base_uri, stream_name);
        assert(uri.take(base_uri.len() as int) =~= base_uri);
        assert(uri.skip(1int + base_uri.len()) =~= stream_name);
    }
}

/// A subscription carries its number and the whole name of one stream, and both read back.
pub proof fn law_subscription_reads_back(stream_name: Seq<char>, id: u64)
    ensures
        subscribe_members(stream_name, id) == seq![
            ("id"@, json::FieldModel::Unsigned(id)),
            ("method"@, json::FieldModel::Text("SUBSCRIBE"@)),
            ("params"@, json::FieldModel::Texts(seq![stream_name])),
        ],
        ({
            let message = subscribe_text(stream_name, id);
            let digits = text::decimal(id as nat).len() as int;
            &&& text::parsed_u64(message.subrange(6, 6 + digits)) == Some(id)
            &&& message.len() == 6 + digits + 33 + stream_name.len() + 3
            &&& message.subrange(39 + digits, 39 + digits + stream_name.len()) == stream_name
        }),
{
    reveal_strlit("{\"id\":");
    reveal_strlit(",\"method\":\"SUBSCRIBE\",\"params\":[\"");
    reveal_strlit("\"]}");
    text::law_decimal_round_trip(id);
    let message = subscribe_text(stream_name, id);
    let digits = text::decimal(id as nat).len() as int;
    assert(message.subrange(6, 6 + digits) =~= text::decimal(id as nat));
    assert(message.subrange(39 + digits, 39 + digits + stream_name.len()) =~= stream_name);
}

} // verus!
