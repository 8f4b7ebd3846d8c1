//! What a relay is started with: its symbol, its port and where it sends.

use crate::symbol;
use crate::symbol::normalize_symbol;
use crate::text;
use crate::text::{decimal_text, same_text};
use vstd::prelude::*;
use vstd::utf8::*;

verus! {

/// Why a relay cannot be started.
pub enum ConfigError {
    /// No symbol was given.
    EmptySymbol,
    /// The port configuration cannot be read.
    InvalidData(String),
    /// The port configuration does not name the symbol.
    NotFound(String),
}

/// The text of an error.
pub open spec fn error_text(error: ConfigError) -> Seq<char> {
    match error {
        ConfigError::EmptySymbol => "symbol must not be empty"@,
        ConfigError::InvalidData(message) => message@,
        ConfigError::NotFound(message) => message@,
    }
}

impl ConfigError {
    /// The text of the error.
    pub fn message(&self) -> (r: String)
        ensures
            r@ == error_text(*self),
    {
        match self {
            ConfigError::EmptySymbol => String::from_str("symbol must not be empty"),
            ConfigError::InvalidData(message) => message.clone(),
            ConfigError::NotFound(message) => message.clone(),
        }
    }
}

/// Puts the symbol of a relay in the form in which symbols are compared.
pub fn relay_symbol(symbol: &str) -> (r: Result<String, ConfigError>)
    ensures
        match r {
            Ok(relay_symbol) => {
                &&& relay_symbol@ == symbol::normalized(symbol@)
                &&& relay_symbol@.len() > 0
                &&& is_ascii_chars(symbol@) ==> relay_symbol@ == symbol::ascii_normalized(symbol@)
            },
            Err(error) => {
                &&& error is EmptySymbol
                &&& symbol::normalized(symbol@).len() == 0
                &&& is_ascii_chars(symbol@) ==> symbol::ascii_normalized(symbol@).len() == 0
            },
        },
{
    let relay_symbol = normalize_symbol(symbol);
    if relay_symbol.as_str().is_empty() {
        Err(ConfigError::EmptySymbol)
    } else {
        Ok(relay_symbol)
    }
}

/// What `serde_json::from_slice` makes of a byte string as a map from text to 16-bit numbers:
/// the map, or the text of its error.
pub uninterp spec fn configured_ports(raw: Seq<u8>) -> Result<Map<Seq<char>, u16>, Seq<char>>;

/// Whether a list holds just the entries of a map, each once, in some order.
pub open spec fn lists(entries: Seq<(String, u16)>, ports: Map<Seq<char>, u16>) -> bool {
    &&& forall|i: int|
        #![trigger entries[i]]
        0 <= i < entries.len() ==> ports.dom().contains(entries[i].0@) && ports[entries[i].0@]
            == entries[i].1
    &&& forall|key: Seq<char>| #[trigger]
        ports.dom().contains(key) ==> exists|i: int|
            0 <= i < entries.len() && (#[trigger] entries[i]).0@ == key
    &&& forall|i: int, j: int|
        #![trigger entries[i], entries[j]]
        0 <= i < j < entries.len() ==> entries[i].0@ != entries[j].0@
}

/// Calls `serde_json::from_slice` for a `HashMap<String, u16>`. Trusted: whether the bytes are
/// accepted, which entries come out of them, and the text of the error depend on the bytes
/// alone; each key comes once. The order of the entries is left open.
#[verifier::external_body]
fn parse_ports(raw: &[u8]) -> (r: Result<Vec<(String, u16)>, String>)
    ensures
        match r {
            Ok(entries) => configured_ports(raw@) is Ok && lists(
                entries@,
                configured_ports(raw@)->Ok_0,
            ),
            Err(message) => configured_ports(raw@) == Err::<Map<Seq<char>, u16>, Seq<char>>(
                message@,
            ),
        },
{
    serde_json::from_slice::<std::collections::HashMap<String, u16>>(raw).map(
        |ports| ports.into_iter().collect(),
    ).map_err(|err| err.to_string())
}

/// Whether an entry is for a symbol, which is in the form in which symbols are compared.
pub open spec fn entry_is_for(key: Seq<char>, symbol: Seq<char>) -> bool {
    symbol::normalized(key) == symbol
}

/// Finds the first entry for a symbol.
pub fn find_port(entries: &Vec<(String, u16)>, symbol: &str) -> (r: Option<u16>)
    ensures
        match r {
            Some(port) => exists|i: int|
                #![trigger entries@[i]]
                0 <= i < entries.len() && entry_is_for(entries@[i].0@, symbol@) && entries@[i].1
                    == port && forall|k: int|
                    #![trigger entries@[k]]
                    0 <= k < i ==> !entry_is_for(entries@[k].0@, symbol@),
            None => forall|i: int|
                #![trigger entries@[i]]
                0 <= i < entries.len() ==> !entry_is_for(entries@[i].0@, symbol@),
        },
{
    let mut i: usize = 0;
    while i < entries.len()
        invariant
            i <= entries.len(),
            forall|k: int|
                #![trigger entries@[k]]
                0 <= k < i ==> !entry_is_for(entries@[k].0@, symbol@),
        decreases entries.len() - i,
    {
        let configured = normalize_symbol(entries[i].0.as_str());
        if same_text(configured.as_str(), symbol) {
            return Some(entries[i].1);
        }
        i += 1;
    }
    None
}

/// Whether a port is configured for a symbol.
pub open spec fn port_is_for(ports: Map<Seq<char>, u16>, symbol: Seq<char>, port: u16) -> bool {
    exists|key: Seq<char>| #[trigger]
        ports.dom().contains(key) && entry_is_for(key, symbol) && ports[key] == port
}

/// The complaint about a configuration that cannot be read.
pub open spec fn unreadable(config_path: Seq<char>, error: Seq<char>) -> Seq<char> {
    "failed to parse "@ + config_path + ": "@ + error
}

/// The complaint about a symbol that is not configured.
pub open spec fn missing(symbol: Seq<char>, config_path: Seq<char>) -> Seq<char> {
    "symbol "@ + symbol + " is missing from "@ + config_path
}

/// Finds the port of a symbol in the text of a configuration file.
pub fn load_udp_port(raw: &[u8], config_path: &str, symbol: &str) -> (r: Result<u16, ConfigError>)
    ensures
        match r {
            Ok(port) => configured_ports(raw@) is Ok && port_is_for(
                configured_ports(raw@)->Ok_0,
                symbol@,
                port,
            ),
            Err(ConfigError::InvalidData(message)) => configured_ports(raw@) is Err && message@
                == unreadable(config_path@, configured_ports(raw@)->Err_0),
            Err(ConfigError::NotFound(message)) => {
                &&& configured_ports(raw@) is Ok
                &&& forall|port: u16|
                    !port_is_for(configured_ports(raw@)->Ok_0, symbol@, port)
                &&& message@ == missing(symbol@, config_path@)
            },
            Err(ConfigError::EmptySymbol) => false,
        },
{
    let entries = match parse_ports(raw) {
        Ok(entries) => entries,
        Err(error) => {
            let mut message = String::from_str("failed to parse ");
            message.append(config_path);
            message.append(": ");
            message.append(error.as_str());
            return Err(ConfigError::InvalidData(message));
        },
    };
    match find_port(&entries, symbol) {
        Some(port) => Ok(port),
        None => {
            let mut message = String::from_str("symbol ");
            message.append(symbol);
            message.append(" is missing from ");
            message.append(config_path);
            Err(ConfigError::NotFound(message))
        },
    }
}

/// Where one key only is for a symbol, its port is the one that can be found.
pub proof fn law_single_entry_decides(
    ports: Map<Seq<char>, u16>,
    symbol: Seq<char>,
    key: Seq<char>,
    port: u16,
)
    requires
        ports.dom().contains(key),
        entry_is_for(key, symbol),
        forall|other: Seq<char>| #[trigger]
            ports.dom().contains(other) && entry_is_for(other, symbol) ==> other == key,
    ensures
        port_is_for(ports, symbol, port) <==> port == ports[key],
{
}

/// Where the packets go: the address and the port, with a colon between.
pub fn udp_target(amsterdam_ip: &str, amsterdam_port: u16) -> (r: String)
    ensures
        r@ == amsterdam_ip@ + ":"@ + text::decimal(amsterdam_port as nat),
        r@ == target_text(amsterdam_ip@, amsterdam_port),
{
    let mut target = String::from_str(amsterdam_ip);
    target.append(":");
    target.append(decimal_text(amsterdam_port as u64).as_str());
    target
}

/// The port of a symbol is one that the configuration has under a key that is the symbol up to
/// case and the whitespace around it, and every such key gives one.
pub proof fn law_port_goes_by_the_normalized_key(
    ports: Map<Seq<char>, u16>,
    symbol: Seq<char>,
    port: u16,
)
    ensures
        port_is_for(ports, symbol, port) <==> exists|key: Seq<char>| #[trigger]
            ports.dom().contains(key) && text::uppercase(text::trimmed(key)) == symbol
                && ports[key] == port,
{
    if exists|key: Seq<char>| #[trigger]
        ports.dom().contains(key) && text::uppercase(text::trimmed(key)) == symbol && ports[key]
            == port {
        let key = choose|key: Seq<char>| #[trigger]
            ports.dom().contains(key) && text::uppercase(text::trimmed(key)) == symbol
                && ports[key] == port;
        assert(entry_is_for(key, symbol));
    }
}

/// The complaints name the whole path, and the symbol or the error, at their ends.
pub proof fn law_complaints_name_the_configuration(
    config_path: Seq<char>,
    error: Seq<char>,
    symbol: Seq<char>,
)
    ensures
        ({
            let message = unreadable(config_path, error);
            &&& message.take(16) == "failed to parse "@
            &&& message.subrange(16, 16int + config_path.len()) == config_path
            &&& message.len() == 18 + config_path.len() + error.len()
            &&& message.skip(18int + config_path.len()) == error
        }),
        ({
            let message = missing(symbol, config_path);
            &&& message.take(7) == "symbol "@
            &&& message.subrange(7, 7int + symbol.len()) == symbol
            &&& message.len() == 24 + symbol.len() + config_path.len()
            &&& message.skip(24int + symbol.len()) == config_path
        }),
        error_text(ConfigError::EmptySymbol) == "symbol must not be empty"@,
{
    reveal_strlit("failed to parse ");
    reveal_strlit(": ");
    reveal_strlit("symbol ");
    reveal_strlit(" is missing from ");
    let message = unreadable(config_path, error);
    assert(message.take(16) =~= "failed to parse "@);
    assert(message.subrange(16, 16int + config_path.len()) =~= config_path);
    assert(message.skip(18int + config_path.len()) =~= error);
    let message = missing(symbol, config_path);
    assert(message.take(7) =~= "symbol "@);
    assert(message.subrange(7, 7int + symbol.len()) =~= symbol);
    assert(message.skip(24int + symbol.len()) =~= config_path);
}

/// Where the packets of an address and a port go.
pub open spec fn target_text(amsterdam_ip: Seq<char>, amsterdam_port: u16) -> Seq<char> {
    amsterdam_ip + ":"@ + text::decimal(amsterdam_port as nat)
}

/// A target holds the whole address, a colon, and the port, which reads back.
pub proof fn law_target_reads_back(amsterdam_ip: Seq<char>, amsterdam_port: u16)
    ensures
        ({
            let target = target_text(amsterdam_ip, amsterdam_port);
            &&& target.len() > amsterdam_ip.len()
            &&& target.take(amsterdam_ip.len() as int) == amsterdam_ip
            &&& target[amsterdam_ip.len() as int] == ':'
            &&& text::parsed_u64(target.skip(1int + amsterdam_ip.len())) == Some(
                amsterdam_port as u64,
            )
        }),
{
    reveal_strlit(":");
    text::law_decimal_round_trip(amsterdam_port as u64);
    let target = target_text(amsterdam_ip, amsterdam_port);
    assert(target.take(amsterdam_ip.len() as int) =~= amsterdam_ip);
    assert(target.skip(1int + amsterdam_ip.len()) =~= text::decimal(amsterdam_port as nat));
}

/// An error that brings a message says just that.
pub proof fn law_error_says_its_message(message: String)
    ensures
        error_text(ConfigError::InvalidData(message)) == message@,
        error_text(ConfigError::NotFound(message)) == message@,
{
}

} // verus!
