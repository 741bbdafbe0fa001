//! Core data types: trading-pair symbols, feeds, session configuration,
//! decoded price updates, lifecycle events, and the library's error type.

use vstd::prelude::*;

use crate::json::is_number_token;

verus! {

/// A trading-pair symbol such as base `BTC`, quote `USD`.
#[derive(Debug)]
pub struct Symbol {
    /// The base currency.
    pub base: String,
    /// The quote currency.
    pub quote: String,
}

/// Whether position `i` is the only slash in `s`.
pub open spec fn only_slash_at(s: Seq<char>, i: int) -> bool {
    &&& 0 <= i < s.len()
    &&& s[i] == '/'
    &&& forall|j: int| 0 <= j < s.len() && j != i ==> #[trigger] s[j] != '/'
}

/// Whether `s` holds exactly one slash.
pub open spec fn has_one_slash(s: Seq<char>) -> bool {
    exists|i: int| #[trigger] only_slash_at(s, i)
}

impl Symbol {
    /// Build a symbol from its two parts.
    pub fn new(base: &str, quote: &str) -> (r: Self)
        ensures
            r.base@ == base@,
            r.quote@ == quote@,
    {
        Symbol { base: String::from_str(base), quote: String::from_str(quote) }
    }

    /// Parse `BASE/QUOTE`; any other shape is an invalid symbol.
    pub fn from_str(s: &str) -> (r: Result<Self, SurgeError>)
        ensures
            r is Ok <==> has_one_slash(s@),
            r matches Ok(sym) ==> {
                &&& s@ == sym.base@ + seq!['/'] + sym.quote@
                &&& only_slash_at(s@, sym.base@.len() as int)
            },
            r matches Err(e) ==> e matches SurgeError::InvalidSymbol(m) && m@ == s@,
    {
        let len = s.unicode_len();
        let mut slash: Option<usize> = None;
        let mut i: usize = 0;
        while i < len
            invariant
                len == s@.len(),
                i <= len,
                match slash {
                    Some(k) => k < i && s@[k as int] == '/' && forall|j: int|
                        0 <= j < i && j != k ==> #[trigger] s@[j] != '/',
                    None => forall|j: int| 0 <= j < i ==> #[trigger] s@[j] != '/',
                },
            decreases len - i,
        {
            if s.get_char(i) == '/' {
                match slash {
                    None => {
                        slash = Some(i);
                    },
                    Some(k) => {
                        proof {
                            assert(s@[k as int] == '/');
                            assert(s@[i as int] == '/');
                            assert(!has_one_slash(s@));
                        }
                        return Err(SurgeError::InvalidSymbol(String::from_str(s)));
                    },
                }
            }
            i = i + 1;
        }
        match slash {
            Some(k) => {
                let base = s.substring_char(0, k);
                let quote = s.substring_char(k + 1, len);
                let sym = Symbol { base: String::from_str(base), quote: String::from_str(quote) };
                proof {
                    assert(only_slash_at(s@, k as int));
                    assert(s@ =~= sym.base@ + seq!['/'] + sym.quote@);
                }
                Ok(sym)
            },
            None => {
                proof {
                    assert(!has_one_slash(s@));
                }
                Err(SurgeError::InvalidSymbol(String::from_str(s)))
            },
        }
    }

    /// Render the symbol back as `BASE/QUOTE`.
    pub fn to_string(&self) -> (r: String)
        ensures
            r@ == self.base@ + seq!['/'] + self.quote@,
    {
        let mut out = self.base.clone();
        out.append("/");
        out.append(self.quote.as_str());
        proof {
            reveal_strlit("/");
            assert(out@ =~= self.base@ + seq!['/'] + self.quote@);
        }
        out
    }
}

impl Clone for Symbol {
    fn clone(&self) -> (r: Self)
        ensures
            r == *self,
    {
        Symbol { base: self.base.clone(), quote: self.quote.clone() }
    }
}

/// A price feed: a symbol together with its feed identifier.
#[derive(Debug)]
pub struct Feed {
    /// The trading pair.
    pub symbol: Symbol,
    /// The feed identifier, a hex string.
    pub feed_id: String,
}

impl Feed {
    /// Pair a symbol with its feed identifier.
    pub fn new(symbol: Symbol, feed_id: String) -> (r: Self)
        ensures
            r.symbol == symbol,
            r.feed_id == feed_id,
    {
        Feed { symbol, feed_id }
    }
}

/// The library's error type. Failures arising in outside components are
/// carried as their rendered message.
#[derive(Debug)]
pub enum SurgeError {
    /// An HTTP request failed.
    HttpError(String),
    /// JSON text could not be parsed.
    JsonError(String),
    /// A file could not be read.
    IoError(String),
    /// The socket transport failed.
    WebSocketError(String),
    /// A connection could not be established.
    ConnectionError(String),
    /// No feed is known for the symbol.
    FeedNotFound(String),
    /// A feed identifier had the wrong shape.
    InvalidFeedId(String),
    /// The remote API reported an error.
    ApiError(String),
    /// A feed returned no price data.
    NoPriceData(String),
    /// A symbol was not of the form `BASE/QUOTE`.
    InvalidSymbol(String),
    /// A subscription request could not be delivered.
    SubscriptionError(String),
}

impl SurgeError {
    /// A human-readable message, in place of a display implementation.
    pub fn to_message(&self) -> (r: String)
        ensures
            match self {
                SurgeError::HttpError(m) => r@ == "HTTP request failed: "@ + m@,
                SurgeError::JsonError(m) => r@ == "JSON parsing error: "@ + m@,
                SurgeError::IoError(m) => r@ == "IO error: "@ + m@,
                SurgeError::WebSocketError(m) => r@ == "WebSocket error: "@ + m@,
                SurgeError::ConnectionError(m) => r@ == "Connection error: "@ + m@,
                SurgeError::FeedNotFound(m) => r@ == "Feed not found for symbol: "@ + m@,
                SurgeError::InvalidFeedId(m) => r@ == "Invalid feed ID: "@ + m@,
                SurgeError::ApiError(m) => r@ == "API error: "@ + m@,
                SurgeError::NoPriceData(m) => r@ == "No price data returned for feed: "@ + m@,
                SurgeError::InvalidSymbol(m) => r@ == "Invalid symbol format: "@ + m@
                    + ". Expected format: BASE/QUOTE (e.g., BTC/USD)"@,
                SurgeError::SubscriptionError(m) => r@ == "Subscription error: "@ + m@,
            },
    {
        match self {
            SurgeError::HttpError(m) => {
                let mut out = String::from_str("HTTP request failed: ");
                out.append(m.as_str());
                out
            },
            SurgeError::JsonError(m) => {
                let mut out = String::from_str("JSON parsing error: ");
                out.append(m.as_str());
                out
            },
            SurgeError::IoError(m) => {
                let mut out = String::from_str("IO error: ");
                out.append(m.as_str());
                out
            },
            SurgeError::WebSocketError(m) => {
                let mut out = String::from_str("WebSocket error: ");
                out.append(m.as_str());
                out
            },
            SurgeError::ConnectionError(m) => {
                let mut out = String::from_str("Connection error: ");
                out.append(m.as_str());
                out
            },
            SurgeError::FeedNotFound(m) => {
                let mut out = String::from_str("Feed not found for symbol: ");
                out.append(m.as_str());
                out
            },
            SurgeError::InvalidFeedId(m) => {
                let mut out = String::from_str("Invalid feed ID: ");
                out.append(m.as_str());
                out
            },
            SurgeError::ApiError(m) => {
                let mut out = String::from_str("API error: ");
                out.append(m.as_str());
                out
            },
            SurgeError::NoPriceData(m) => {
                let mut out = String::from_str("No price data returned for feed: ");
                out.append(m.as_str());
                out
            },
            SurgeError::InvalidSymbol(m) => {
                let mut out = String::from_str("Invalid symbol format: ");
                out.append(m.as_str());
                out.append(". Expected format: BASE/QUOTE (e.g., BTC/USD)");
                out
            },
            SurgeError::SubscriptionError(m) => {
                let mut out = String::from_str("Subscription error: ");
                out.append(m.as_str());
                out
            },
        }
    }

    /// The HTTP status a server should answer with for this error.
    pub fn status_code(&self) -> (r: u16)
        ensures
            match self {
                SurgeError::FeedNotFound(_) => r == 404,
                SurgeError::InvalidSymbol(_) => r == 400,
                SurgeError::InvalidFeedId(_) => r == 400,
                SurgeError::SubscriptionError(_) => r == 400,
                SurgeError::HttpError(_) => r == 502,
                SurgeError::ApiError(_) => r == 502,
                SurgeError::ConnectionError(_) => r == 502,
                SurgeError::WebSocketError(_) => r == 502,
                SurgeError::NoPriceData(_) => r == 502,
                SurgeError::JsonError(_) => r == 500,
                SurgeError::IoError(_) => r == 500,
            },
    {
        match self {
            SurgeError::FeedNotFound(_) => 404,
            SurgeError::InvalidSymbol(_) => 400,
            SurgeError::InvalidFeedId(_) => 400,
            SurgeError::SubscriptionError(_) => 400,
            SurgeError::HttpError(_) => 502,
            SurgeError::ApiError(_) => 502,
            SurgeError::ConnectionError(_) => 502,
            SurgeError::WebSocketError(_) => 502,
            SurgeError::NoPriceData(_) => 502,
            SurgeError::JsonError(_) => 500,
            SurgeError::IoError(_) => 500,
        }
    }
}

/// Immutable per-session parameters of a supervisor.
#[derive(Debug)]
pub struct SurgeConfig {
    /// Credential supplied to the upstream endpoint.
    pub api_key: String,
    /// Upstream streaming endpoint address.
    pub ws_url: String,
    /// Upstream REST endpoint address.
    pub api_url: String,
    /// Whether the supervisor retries after a failure.
    pub auto_reconnect: bool,
    /// How many consecutive failures are tolerated before giving up.
    pub max_reconnect_attempts: u32,
    /// Delay before the first reconnect attempt, in milliseconds.
    pub initial_reconnect_delay_ms: u64,
}

impl Clone for SurgeConfig {
    fn clone(&self) -> (r: Self)
        ensures
            r == *self,
    {
        SurgeConfig {
            api_key: self.api_key.clone(),
            ws_url: self.ws_url.clone(),
            api_url: self.api_url.clone(),
            auto_reconnect: self.auto_reconnect,
            max_reconnect_attempts: self.max_reconnect_attempts,
            initial_reconnect_delay_ms: self.initial_reconnect_delay_ms,
        }
    }
}

impl Default for SurgeConfig {
    /// The stock configuration: official endpoints, auto-reconnect on, ten
    /// attempts, one second initial delay.
    fn default() -> (r: Self)
        ensures
            r.api_key@ == Seq::<char>::empty(),
            r.ws_url@ == "wss://surge.switchboard.xyz/ws"@,
            r.api_url@ == "https://surge.switchboard.xyz"@,
            r.auto_reconnect == true,
            r.max_reconnect_attempts == 10,
            r.initial_reconnect_delay_ms == 1000,
    {
        SurgeConfig {
            api_key: String::new(),
            ws_url: String::from_str("wss://surge.switchboard.xyz/ws"),
            api_url: String::from_str("https://surge.switchboard.xyz"),
            auto_reconnect: true,
            max_reconnect_attempts: 10,
            initial_reconnect_delay_ms: 1000,
        }
    }
}

/// The payload of a price update. The price is carried as its raw number
/// token, exactly as it appeared on the wire.
#[derive(Debug)]
pub struct SurgeUpdateData {
    /// The trading pair the update is for.
    pub symbol: String,
    /// The price, as a JSON number token.
    pub price: String,
    /// Source timestamp in milliseconds.
    pub source_timestamp_ms: i64,
    /// The feed identifier, when the feed supplies one.
    pub feed_id: Option<String>,
    /// A signature over the update, when the feed supplies one.
    pub signature: Option<String>,
    /// The oracle's public key, when the feed supplies one.
    pub oracle_pubkey: Option<String>,
}

impl SurgeUpdateData {
    /// The price token is a valid JSON number.
    pub open spec fn wf(&self) -> bool {
        is_number_token(self.price@)
    }
}

/// A decoded upstream price update.
#[derive(Debug)]
pub struct SurgeUpdate {
    /// The message type tag, when present.
    pub event_type: Option<String>,
    /// The price payload.
    pub data: SurgeUpdateData,
}

impl SurgeUpdate {
    /// The payload is well formed.
    pub open spec fn wf(&self) -> bool {
        self.data.wf()
    }

    /// Repackage the update as instruction data for on-chain submission.
    pub fn to_bundle_ix(&self) -> (r: OracleQuoteIx)
        ensures
            r.symbol@ == self.data.symbol@,
            r.price@ == self.data.price@,
            r.timestamp_ms == self.data.source_timestamp_ms,
            r.signature == self.data.signature,
    {
        OracleQuoteIx {
            symbol: self.data.symbol.clone(),
            price: self.data.price.clone(),
            timestamp_ms: self.data.source_timestamp_ms,
            signature: clone_opt_string(&self.data.signature),
        }
    }
}

/// Oracle quote instruction data for on-chain execution.
#[derive(Debug)]
pub struct OracleQuoteIx {
    /// The trading pair.
    pub symbol: String,
    /// The price, as a JSON number token.
    pub price: String,
    /// Timestamp in milliseconds.
    pub timestamp_ms: i64,
    /// Signature for verification, when available.
    pub signature: Option<String>,
}

/// Copy an optional string.
pub fn clone_opt_string(o: &Option<String>) -> (r: Option<String>)
    ensures
        r == *o,
{
    match o {
        Option::None => Option::None,
        Option::Some(s) => Option::Some(s.clone()),
    }
}

impl Clone for SurgeUpdateData {
    fn clone(&self) -> (r: Self)
        ensures
            r == *self,
    {
        SurgeUpdateData {
            symbol: self.symbol.clone(),
            price: self.price.clone(),
            source_timestamp_ms: self.source_timestamp_ms,
            feed_id: clone_opt_string(&self.feed_id),
            signature: clone_opt_string(&self.signature),
            oracle_pubkey: clone_opt_string(&self.oracle_pubkey),
        }
    }
}

impl Clone for SurgeUpdate {
    fn clone(&self) -> (r: Self)
        ensures
            r == *self,
    {
        SurgeUpdate { event_type: clone_opt_string(&self.event_type), data: self.data.clone() }
    }
}

/// A lifecycle or data event broadcast to every bus reader.
#[derive(Debug)]
pub enum SurgeEvent {
    /// The upstream session was established.
    Connected,
    /// The upstream session ended.
    Disconnected,
    /// A price update arrived.
    PriceUpdate(SurgeUpdate),
    /// Something failed; the message says what.
    Error(String),
    /// A reconnect attempt is pending.
    Reconnecting {
        /// Which consecutive failure this is, counted from one.
        attempt: u32,
        /// How long the supervisor waits before retrying, in milliseconds.
        delay_ms: u64,
    },
}

impl Clone for SurgeEvent {
    fn clone(&self) -> (r: Self)
        ensures
            r == *self,
    {
        match self {
            SurgeEvent::Connected => SurgeEvent::Connected,
            SurgeEvent::Disconnected => SurgeEvent::Disconnected,
            SurgeEvent::PriceUpdate(u) => SurgeEvent::PriceUpdate(u.clone()),
            SurgeEvent::Error(m) => SurgeEvent::Error(m.clone()),
            SurgeEvent::Reconnecting { attempt, delay_ms } => SurgeEvent::Reconnecting {
                attempt: *attempt,
                delay_ms: *delay_ms,
            },
        }
    }
}

/// One symbol inside a subscription request.
#[derive(Debug)]
pub struct SymbolRequest {
    /// The trading pair.
    pub symbol: String,
}

/// An upstream subscribe or unsubscribe request.
#[derive(Debug)]
pub struct SubscriptionRequest {
    /// Either `subscribe` or `unsubscribe`.
    pub action: String,
    /// The symbols the request applies to.
    pub symbols: Vec<SymbolRequest>,
}

/// Metadata about one feed offered by the upstream service.
#[derive(Debug)]
pub struct SurgeFeedInfo {
    /// The trading pair.
    pub symbol: String,
    /// The feed identifier, when known.
    pub feed_id: Option<String>,
    /// Whether the feed is live.
    pub active: Option<bool>,
    /// How often the feed updates, in milliseconds.
    pub update_frequency_ms: Option<u64>,
}

} // verus!
