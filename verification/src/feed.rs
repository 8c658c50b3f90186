//! Market data feeds: their configuration, the derived addresses they
//! connect to, and the 16-byte tick frame the MT5 bridge sends (price bits
//! then timestamp, both little-endian).
use vstd::prelude::*;
use vstd::bytes::{spec_u64_from_le_bytes, spec_u64_to_le_bytes, u64_from_le_bytes, u64_to_le_bytes, lemma_auto_spec_u64_to_from_le_bytes};
use vstd::slice::slice_subrange;
use crate::errors::AppError;

verus! {

/// The number of bytes of one tick frame.
pub const TICK_FRAME_LEN: usize = 16;

/// One tick as sent by the MT5 bridge: the bit pattern of the price (an IEEE
/// 754 double) and the timestamp in Unix nanoseconds.
#[derive(Clone, Copy, PartialEq, Eq, Structural, Debug)]
pub struct TickFrame {
    pub price_bits: u64,
    pub timestamp: i64,
}

/// The bytes of a tick frame: the price bits, then the timestamp's two's
/// complement bits, each as 8 little-endian bytes.
pub open spec fn frame_bytes(t: TickFrame) -> Seq<u8> {
    spec_u64_to_le_bytes(t.price_bits) + spec_u64_to_le_bytes(t.timestamp as u64)
}

/// The tick in a 16-byte frame.
pub open spec fn frame_tick(bytes: Seq<u8>) -> TickFrame {
    TickFrame {
        price_bits: spec_u64_from_le_bytes(bytes.subrange(0, 8)),
        timestamp: spec_u64_from_le_bytes(bytes.subrange(8, 16)) as i64,
    }
}

/// Reads the tick in a frame.
pub fn decode_tick(buf: &[u8; 16]) -> (r: TickFrame)
    ensures
        r == frame_tick(buf@),
{
    let all = buf.as_slice();
    let price = slice_subrange(all, 0, 8);
    let time = slice_subrange(all, 8, 16);
    TickFrame { price_bits: u64_from_le_bytes(price), timestamp: u64_from_le_bytes(time) as i64 }
}

/// Writes a tick as a frame.
pub fn encode_tick(tick: TickFrame) -> (r: [u8; 16])
    ensures
        r@ == frame_bytes(tick),
{
    let price = u64_to_le_bytes(tick.price_bits);
    let time = u64_to_le_bytes(tick.timestamp as u64);
    let mut buf = [0u8; 16];
    let mut i: usize = 0;
    while i < 8
        invariant
            i <= 8,
            price@.len() == 8,
            time@.len() == 8,
            forall|j: int| 0 <= j < i ==> #[trigger] buf@[j] == price@[j],
            forall|j: int| 8 <= j < i + 8 ==> #[trigger] buf@[j] == time@[j - 8],
        decreases 8 - i,
    {
        buf[i] = price[i];
        buf[i + 8] = time[i];
        i = i + 1;
    }
    assert(buf@ =~= price@ + time@);
    buf
}

/// A frame written from a tick reads back as that tick, and a frame read as
/// a tick is written back byte for byte.
pub proof fn lemma_tick_frame_round_trip(tick: TickFrame, bytes: Seq<u8>)
    requires
        bytes.len() == TICK_FRAME_LEN,
    ensures
        frame_tick(frame_bytes(tick)) == tick,
        frame_bytes(frame_tick(bytes)) == bytes,
{
    lemma_auto_spec_u64_to_from_le_bytes();
    let b = frame_bytes(tick);
    assert(b.subrange(0, 8) =~= spec_u64_to_le_bytes(tick.price_bits));
    assert(b.subrange(8, 16) =~= spec_u64_to_le_bytes(tick.timestamp as u64));
    let t = tick.timestamp;
    assert((t as u64) as i64 == t) by (bit_vector);
    let lo = bytes.subrange(0, 8);
    let hi = bytes.subrange(8, 16);
    let x = spec_u64_from_le_bytes(hi);
    assert((x as i64) as u64 == x) by (bit_vector);
    assert(spec_u64_to_le_bytes(spec_u64_from_le_bytes(lo)) == lo);
    assert(spec_u64_to_le_bytes(spec_u64_from_le_bytes(hi)) == hi);
    assert(frame_bytes(frame_tick(bytes)) =~= lo + hi);
    assert(lo + hi =~= bytes);
}

/// A feed that produces nothing.
pub struct NoopFeed;

impl NoopFeed {
    /// The symbol of a feed that produces nothing: empty.
    pub fn symbol(&self) -> (r: &'static str)
        ensures
            r@ == ""@,
    {
        ""
    }
}

/// The MetaTrader 5 bridge: ticks of `symbol` arrive as frames on a TCP
/// listener on `port`.
pub struct Mt5Feed {
    pub port: u16,
    pub symbol: String,
}

impl Mt5Feed {
    /// A feed of `symbol` listening on `port`.
    pub fn new(port: u16, symbol: String) -> (r: Self)
        ensures
            r.port == port,
            r.symbol@ == symbol@,
    {
        Mt5Feed { port, symbol }
    }

    /// The symbol the feed produces.
    pub fn symbol(&self) -> (r: &str)
        ensures
            r@ == self.symbol@,
    {
        self.symbol.as_str()
    }
}

/// `str::to_lowercase`: the Unicode lower-case mapping of a string.
pub uninterp spec fn lowercase(s: Seq<char>) -> Seq<char>;

/// Calls `str::to_lowercase`; its result is the Unicode lower-case mapping
/// of the text alone, named `lowercase`.
#[verifier::external_body]
fn to_lowercase(s: &str) -> (r: String)
    ensures
        r@ == lowercase(s@),
{
    s.to_lowercase()
}

/// The Binance trade stream of `symbol` at the websocket endpoint `ws_url`.
pub struct BinanceFeed {
    symbol: String,
    ws_url: String,
}

impl BinanceFeed {
    /// A feed of `symbol` from the endpoint `ws_url`.
    pub fn new(symbol: String, ws_url: String) -> (r: Self)
        ensures
            r.spec_symbol() == symbol@,
            r.spec_ws_url() == ws_url@,
    {
        BinanceFeed { symbol, ws_url }
    }

    /// The feed's symbol.
    pub closed spec fn spec_symbol(&self) -> Seq<char> {
        self.symbol@
    }

    /// The feed's endpoint.
    pub closed spec fn spec_ws_url(&self) -> Seq<char> {
        self.ws_url@
    }

    /// The symbol the feed produces.
    pub fn symbol(&self) -> (r: &str)
        ensures
            r@ == self.spec_symbol(),
    {
        self.symbol.as_str()
    }

    /// The address of the symbol's trade stream:
    /// `{ws_url}/ws/{lower-case symbol}@trade`.
    pub fn stream_url(&self) -> (r: String)
        ensures
            r@ == self.spec_ws_url() + "/ws/"@ + lowercase(self.spec_symbol()) + "@trade"@,
    {
        let lower = to_lowercase(self.symbol.as_str());
        let url = self.ws_url.clone();
        let url = url.concat("/ws/");
        let url = url.concat(lower.as_str());
        url.concat("@trade")
    }
}

/// The Interactive Brokers gateway at `host:port`, seen as client
/// `client_id`, streaming real-time bars of `symbol`.
pub struct IBFeed {
    symbol: String,
    host: String,
    port: u16,
    client_id: i32,
}

/// ibapi's `Contract`, carried through opaque: nothing inside it is read.
#[verifier::external_type_specification]
#[verifier::external_body]
pub struct ExContract(ibapi::contracts::Contract);

/// The Interactive Brokers futures contract that ibapi builds for a symbol
/// with no contract month.
pub uninterp spec fn futures_contract(symbol: Seq<char>) -> ibapi::contracts::Contract;

/// Calls `ibapi::contracts::Contract::futures(symbol).any_month().build()`.
/// The ibapi source builds the contract from the symbol alone (a future on
/// CME, in USD, with an empty contract month), so the result is named
/// `futures_contract` of the symbol; nothing more is said of its fields.
#[verifier::external_body]
fn build_futures_contract(symbol: &str) -> (c: ibapi::contracts::Contract)
    ensures
        c == futures_contract(symbol@),
{
    ibapi::contracts::Contract::futures(symbol).any_month().build()
}

/// The decimal digit character of `d`, for `d < 10`.
pub open spec fn digit_char(d: nat) -> char {
    (d + 48) as char
}

/// The decimal text of `n`, without leading zeros.
pub open spec fn decimal(n: nat) -> Seq<char>
    decreases n,
{
    if n < 10 {
        seq![digit_char(n)]
    } else {
        decimal(n / 10) + seq![digit_char(n % 10)]
    }
}

/// The one-character text of the decimal digit `d`.
fn digit_text(d: u16) -> (r: &'static str)
    requires
        d < 10,
    ensures
        r@ == seq![digit_char(d as nat)],
{
    proof {
        reveal_strlit("0");
        reveal_strlit("1");
        reveal_strlit("2");
        reveal_strlit("3");
        reveal_strlit("4");
        reveal_strlit("5");
        reveal_strlit("6");
        reveal_strlit("7");
        reveal_strlit("8");
        reveal_strlit("9");
    }
    let r = if d == 0 {
        "0"
    } else if d == 1 {
        "1"
    } else if d == 2 {
        "2"
    } else if d == 3 {
        "3"
    } else if d == 4 {
        "4"
    } else if d == 5 {
        "5"
    } else if d == 6 {
        "6"
    } else if d == 7 {
        "7"
    } else if d == 8 {
        "8"
    } else {
        "9"
    };
    assert(r@ =~= seq![digit_char(d as nat)]);
    r
}

/// Appends the decimal text of `n` to `prefix`.
fn append_decimal(prefix: String, n: u16) -> (r: String)
    ensures
        r@ == prefix@ + decimal(n as nat),
    decreases n,
{
    if n < 10 {
        prefix.concat(digit_text(n))
    } else {
        let head = append_decimal(prefix, n / 10);
        let r = head.concat(digit_text(n % 10));
        assert(r@ =~= prefix@ + decimal(n as nat));
        r
    }
}

/// The one symbol the Interactive Brokers feed trades.
pub open spec fn supported_ib_symbol() -> Seq<char> {
    "XAUUSD"@
}

impl IBFeed {
    /// A feed of `symbol` from the gateway at `host:port` as client
    /// `client_id`.
    pub fn new(symbol: String, host: String, port: u16, client_id: i32) -> (r: Self)
        ensures
            r.spec_symbol() == symbol@,
            r.spec_host() == host@,
            r.spec_port() == port,
            r.spec_client_id() == client_id,
    {
        IBFeed { symbol, host, port, client_id }
    }

    /// The feed's symbol.
    pub closed spec fn spec_symbol(&self) -> Seq<char> {
        self.symbol@
    }

    /// The gateway's host.
    pub closed spec fn spec_host(&self) -> Seq<char> {
        self.host@
    }

    /// The symbol the feed produces.
    pub fn symbol(&self) -> (r: &str)
        ensures
            r@ == self.spec_symbol(),
    {
        self.symbol.as_str()
    }

    /// The gateway's host.
    pub fn host(&self) -> (r: &str)
        ensures
            r@ == self.spec_host(),
    {
        self.host.as_str()
    }

    /// The gateway's port.
    pub fn port(&self) -> (r: u16)
        ensures
            r == self.spec_port(),
    {
        self.port
    }

    /// The gateway's port.
    pub closed spec fn spec_port(&self) -> u16 {
        self.port
    }

    /// The client id the feed connects as.
    pub fn client_id(&self) -> (r: i32)
        ensures
            r == self.spec_client_id(),
    {
        self.client_id
    }

    /// The client id the feed connects as.
    pub closed spec fn spec_client_id(&self) -> i32 {
        self.client_id
    }

    /// The gateway's address: `{host}:{port}`, the port in decimal.
    pub fn connection_url(&self) -> (r: String)
        ensures
            r@ == self.spec_host() + ":"@ + decimal(self.spec_port() as nat),
    {
        let url = self.host.clone().concat(":");
        append_decimal(url, self.port)
    }

    /// Checks that the feed's symbol is supported: `Ok(())` for `XAUUSD`,
    /// otherwise a feed error naming the symbol.
    pub fn check_symbol(&self) -> (r: Result<(), AppError>)
        ensures
            self.spec_symbol() == supported_ib_symbol() ==> r is Ok,
            self.spec_symbol() != supported_ib_symbol() ==> (r matches Err(AppError::Feed(msg))
                && msg@ == "Unsupported symbol: "@ + self.spec_symbol() + ". Expected only XAUUSD"@),
    {
        let supported = String::from_str("XAUUSD");
        proof {
            reveal_strlit("XAUUSD");
        }
        if self.symbol == supported {
            Ok(())
        } else {
            let msg = String::from_str("Unsupported symbol: ");
            let msg = msg.concat(self.symbol.as_str());
            let msg = msg.concat(". Expected only XAUUSD");
            Err(AppError::Feed(msg))
        }
    }

    /// The futures contract to stream bars of: that of the feed's symbol
    /// when it is `XAUUSD`, otherwise the error of `check_symbol`.
    pub fn make_contract(&self) -> (r: Result<ibapi::contracts::Contract, AppError>)
        ensures
            self.spec_symbol() == supported_ib_symbol() ==> r == Ok::<ibapi::contracts::Contract, AppError>(
                futures_contract(self.spec_symbol()),
            ),
            self.spec_symbol() != supported_ib_symbol() ==> (r matches Err(AppError::Feed(msg))
                && msg@ == "Unsupported symbol: "@ + self.spec_symbol() + ". Expected only XAUUSD"@),
    {
        match self.check_symbol() {
            Ok(()) => Ok(build_futures_contract(self.symbol.as_str())),
            Err(e) => Err(e),
        }
    }
}

} // verus!
