//! Brokers: what the executor sends to one, what comes back, and the brokers that need no
//! network.
//!
//!   - [`DryRunBroker`] never touches the network. The default where no credentials are set.
//!   - [`AlpacaPaper`] holds what a request to the Alpaca paper API is made of.

use vstd::prelude::*;

use crate::clock::{now, Timestamp};
use crate::fixed;
use crate::ids;
use crate::ids::{fresh_id, id_text};
use crate::risk::OrderSide;
use crate::text;
use crate::text::{count_text, fixed2_text};

verus! {

/// How much to trade.
#[derive(Debug, Clone, Copy, PartialEq, Eq, Structural)]
pub enum OrderSize {
    /// Whole shares: universal across brokers and asset classes.
    Shares { qty: u32 },
    /// Dollar notional, in millionths: fractional shares, for equities only.
    Notional { dollars: i64 },
}

/// How many whole shares `dollars` buy at a price above 0, as far as 32 bits count.
pub open spec fn share_count(dollars: int, price: int) -> int {
    fixed::smaller(fixed::larger(dollars / price, 0), u32::MAX as int)
}

impl OrderSize {
    /// The whole shares that an order comes to at a price.
    pub open spec fn shares_at(self, price: int) -> int {
        match self {
            OrderSize::Shares { qty } => qty as int,
            OrderSize::Notional { dollars } => if price > 0 {
                share_count(dollars as int, price)
            } else {
                0
            },
        }
    }

    /// The dollars that an order comes to at a price.
    pub open spec fn dollars_at(self, price: int) -> int {
        match self {
            OrderSize::Shares { qty } => qty * price,
            OrderSize::Notional { dollars } => dollars as int,
        }
    }

    pub fn approx_shares(&self, price: i64) -> (r: u32)
        ensures
            r == self.shares_at(price as int),
    {
        match self {
            OrderSize::Shares { qty } => *qty,
            OrderSize::Notional { dollars } => {
                if price <= 0 {
                    return 0;
                }
                whole_shares(*dollars, price)
            },
        }
    }

    pub fn notional(&self, price: i64) -> (r: i128)
        ensures
            r == self.dollars_at(price as int),
    {
        match self {
            OrderSize::Shares { qty } => {
                proof {
                    fixed::lemma_product_in_range(*qty as int, price as int);
                }
                *qty as i128 * price as i128
            },
            OrderSize::Notional { dollars } => *dollars as i128,
        }
    }
}

/// Counts the whole shares that an amount buys.
pub fn whole_shares(dollars: i64, price: i64) -> (r: u32)
    requires
        price > 0,
    ensures
        r == share_count(dollars as int, price as int),
{
    let q: i128 = fixed::floor_div(dollars as i128, price as i128);
    if q <= 0 {
        0
    } else if q >= u32::MAX as i128 {
        u32::MAX
    } else {
        q as u32
    }
}

/// What is traded.
#[derive(Debug, Clone, Copy, PartialEq, Eq, Structural)]
pub enum AssetClass {
    UsEquity,
    UsOption,
}

/// An order as it goes to a broker. The symbol is an equity ticker or an OCC option symbol.
#[derive(Debug, Clone)]
pub struct OrderRequest {
    pub symbol: String,
    pub size: OrderSize,
    pub side: OrderSide,
    pub asset_class: AssetClass,
}

/// An [`OrderRequest`] with its symbol as a character sequence.
pub struct OrderView {
    pub symbol: Seq<char>,
    pub size: OrderSize,
    pub side: OrderSide,
    pub asset_class: AssetClass,
}

impl View for OrderRequest {
    type V = OrderView;

    open spec fn view(&self) -> OrderView {
        OrderView {
            symbol: self.symbol@,
            size: self.size,
            side: self.side,
            asset_class: self.asset_class,
        }
    }
}

/// A broker's answer to an order that it took.
#[derive(Debug, Clone)]
pub struct OrderResult {
    pub broker_order_id: String,
    pub status: String,
    pub submitted_at: Timestamp,
}

/// A position that a broker reports. Amounts are in millionths of a dollar.
#[derive(Debug, Clone)]
pub struct Position {
    pub symbol: String,
    pub qty: i64,
    pub market_value: i64,
    pub unrealized_pl: i64,
}

/// Why a broker did not answer as asked.
#[derive(Debug, Clone)]
pub enum BrokerError {
    Http(String),
    Auth(String),
    Rejected(String),
    Unsupported(String),
}

impl BrokerError {
    /// The error as it is shown.
    pub open spec fn shown(self) -> Seq<char> {
        match self {
            BrokerError::Http(m) => "http: "@ + m@,
            BrokerError::Auth(m) => "auth: "@ + m@,
            BrokerError::Rejected(m) => "broker rejected: "@ + m@,
            BrokerError::Unsupported(m) => "unsupported: "@ + m@,
        }
    }

    pub fn message(&self) -> (r: String)
        ensures
            r@ == self.shown(),
    {
        match self {
            BrokerError::Http(m) => "http: ".to_owned().concat(m.as_str()),
            BrokerError::Auth(m) => "auth: ".to_owned().concat(m.as_str()),
            BrokerError::Rejected(m) => "broker rejected: ".to_owned().concat(m.as_str()),
            BrokerError::Unsupported(m) => "unsupported: ".to_owned().concat(m.as_str()),
        }
    }
}

pub type BrokerResult<T> = Result<T, BrokerError>;

/// A broker that answers at once.
pub trait Broker {
    fn name(&self) -> &'static str;

    /// Whether no real money is at stake.
    fn is_paper(&self) -> bool;

    fn account_equity(&self) -> BrokerResult<i64>;

    fn place_order(&self, order: &OrderRequest) -> BrokerResult<OrderResult>;

    fn list_positions(&self) -> BrokerResult<Vec<Position>>;

    /// Always open, unless a broker knows the venue's clock.
    fn is_market_open(&self) -> (r: BrokerResult<bool>)
        default_ensures
            r == Ok::<bool, BrokerError>(true),
    {
        Ok(true)
    }
}

/// A line to a broker, which keeps count of the orders that went through it. The broker itself
/// is out of reach of who holds the line, so that no order goes past the count.
pub struct Session<'a, B: Broker> {
    broker: &'a B,
    sent: Ghost<Seq<OrderView>>,
}

impl<'a, B: Broker> Session<'a, B> {
    /// The broker at the other end.
    pub closed spec fn broker(&self) -> &'a B {
        self.broker
    }

    /// The orders that went to the broker, in order.
    pub closed spec fn sent(&self) -> Seq<OrderView> {
        self.sent@
    }

    /// A line through which nothing went yet.
    pub fn new(broker: &'a B) -> (r: Session<'a, B>)
        ensures
            r.broker() == broker,
            r.sent() == Seq::<OrderView>::empty(),
    {
        Session { broker, sent: Ghost(Seq::empty()) }
    }

    pub fn name(&self) -> (r: &'static str)
        ensures
            call_ensures(B::name, (self.broker(),), r),
    {
        self.broker.name()
    }

    pub fn account_equity(&self) -> (r: BrokerResult<i64>)
        ensures
            call_ensures(B::account_equity, (self.broker(),), r),
    {
        self.broker.account_equity()
    }

    pub fn place_order(&mut self, order: &OrderRequest) -> (r: BrokerResult<OrderResult>)
        ensures
            call_ensures(B::place_order, (old(self).broker(), order), r),
            final(self).broker() == old(self).broker(),
            final(self).sent() == old(self).sent().push(order@),
    {
        self.sent = Ghost(self.sent@.push(order@));
        self.broker.place_order(order)
    }
}

/// Whether a text is that of a random identifier.
pub open spec fn is_fresh_id_text(s: Seq<char>) -> bool {
    exists|id: u128| ids::is_random_uuid(id) && s == #[trigger] ids::hyphenated(id)
}

/// The answer of a broker that fills every order by itself.
pub fn instant_fill(status: &str) -> (r: OrderResult)
    ensures
        is_fresh_id_text(r.broker_order_id@),
        r.status@ == status@,
{
    let id: u128 = fresh_id();
    let broker_order_id = id_text(id);
    assert(ids::is_random_uuid(id) && broker_order_id@ == ids::hyphenated(id));
    OrderResult { broker_order_id, status: status.to_owned(), submitted_at: now() }
}

/// Takes every order and sends none.
#[derive(Debug, Clone, Copy, PartialEq, Eq, Structural)]
pub struct DryRunBroker {
    pub mock_equity: i64,
}

impl Broker for DryRunBroker {
    fn name(&self) -> (r: &'static str)
        ensures
            r@ == "dry-run"@,
    {
        "dry-run"
    }

    fn is_paper(&self) -> (r: bool)
        ensures
            r,
    {
        true
    }

    fn account_equity(&self) -> (r: BrokerResult<i64>)
        ensures
            r == Ok::<i64, BrokerError>(self.mock_equity),
    {
        Ok(self.mock_equity)
    }

    fn place_order(&self, order: &OrderRequest) -> (r: BrokerResult<OrderResult>)
        ensures
            r is Ok,
            is_fresh_id_text(r->Ok_0.broker_order_id@),
            r->Ok_0.status@ == "accepted_dry_run"@,
    {
        Ok(instant_fill("accepted_dry_run"))
    }

    fn list_positions(&self) -> (r: BrokerResult<Vec<Position>>)
        ensures
            r is Ok,
            r->Ok_0@.len() == 0,
    {
        Ok(Vec::new())
    }
}

/// The account that orders go to at the Alpaca paper API.
#[derive(Debug, Clone)]
pub struct AlpacaPaper {
    pub base: String,
    pub key: String,
    pub secret: String,
}

/// An order as the Alpaca API takes it: exactly one of `qty` and `notional` is given.
#[derive(Debug, Clone)]
pub struct AlpacaOrder {
    pub symbol: String,
    pub side: &'static str,
    pub order_type: &'static str,
    pub time_in_force: &'static str,
    pub qty: Option<String>,
    pub notional: Option<String>,
}

/// Whether an order is one that Alpaca has no way to take: a dollar amount of options.
pub open spec fn alpaca_refuses(order: OrderView) -> bool {
    order.size is Notional && order.asset_class is UsOption
}

/// Whether a request to Alpaca says what an order asks for: whole shares by their number,
/// a dollar amount to the cent, at the market, for the day.
pub open spec fn alpaca_says(body: AlpacaOrder, order: OrderView) -> bool {
    &&& body.symbol@ == order.symbol
    &&& body.side@ == (if order.side is Buy { "buy"@ } else { "sell"@ })
    &&& body.order_type@ == "market"@
    &&& body.time_in_force@ == "day"@
    &&& match order.size {
        OrderSize::Shares { qty } => {
            &&& body.qty is Some
            &&& body.qty->0@ == text::digits(qty as nat)
            &&& body.notional is None
        },
        OrderSize::Notional { dollars } => {
            &&& body.qty is None
            &&& body.notional is Some
            &&& body.notional->0@ == text::fixed2(dollars as int)
        },
    }
}

impl AlpacaPaper {
    /// The account that the two settings give access to; none where one is missing.
    pub fn from_env(key: Option<String>, secret: Option<String>) -> (r: Option<AlpacaPaper>)
        ensures
            r is Some <==> key is Some && secret is Some,
            r matches Some(a) ==> {
                &&& a.base@ == "https://paper-api.alpaca.markets"@
                &&& Some(a.key) == key
                &&& Some(a.secret) == secret
            },
    {
        match (key, secret) {
            (Some(key), Some(secret)) => Some(
                AlpacaPaper {
                    base: "https://paper-api.alpaca.markets".to_owned(),
                    key,
                    secret,
                },
            ),
            _ => None,
        }
    }

    /// The request that places an order.
    pub fn order_body(order: &OrderRequest) -> (r: BrokerResult<AlpacaOrder>)
        ensures
            r is Err <==> alpaca_refuses(order@),
            r matches Err(e) ==> {
                &&& e is Unsupported
                &&& e.shown() == "unsupported: "@ + "Alpaca does not support fractional options"@
            },
            r matches Ok(body) ==> alpaca_says(body, order@),
    {
        let side: &'static str = match order.side {
            OrderSide::Buy => "buy",
            OrderSide::Sell => "sell",
        };
        let (qty, notional) = match order.size {
            OrderSize::Shares { qty } => (Some(count_text(qty)), None),
            OrderSize::Notional { dollars } => {
                if matches!(order.asset_class, AssetClass::UsOption) {
                    return Err(
                        BrokerError::Unsupported(
                            "Alpaca does not support fractional options".to_owned(),
                        ),
                    );
                }
                (None, Some(fixed2_text(dollars as i128)))
            },
        };
        Ok(
            AlpacaOrder {
                symbol: order.symbol.clone(),
                side,
                order_type: "market",
                time_in_force: "day",
                qty,
                notional,
            },
        )
    }

    /// What Alpaca said to an order: what it holds of the order where it took it, and why it
    /// did not otherwise.
    pub fn order_reply(success: bool, body: String) -> (r: BrokerResult<String>)
        ensures
            r == (if success {
                Ok::<String, BrokerError>(body)
            } else {
                Err(BrokerError::Rejected(body))
            }),
    {
        if success {
            Ok(body)
        } else {
            Err(BrokerError::Rejected(body))
        }
    }
}

/// The broker that a server starts with.
pub enum BrokerChoice {
    Alpaca(AlpacaPaper),
    DryRun(DryRunBroker),
}

/// Picks Alpaca where both of its settings are given, and a dry run with $100,000 otherwise.
pub fn default_broker(key: Option<String>, secret: Option<String>) -> (r: BrokerChoice)
    ensures
        r is Alpaca <==> key is Some && secret is Some,
        r matches BrokerChoice::Alpaca(a) ==> {
            &&& a.base@ == "https://paper-api.alpaca.markets"@
            &&& Some(a.key) == key
            &&& Some(a.secret) == secret
        },
        r matches BrokerChoice::DryRun(d) ==> d.mock_equity == 100_000_000_000,
{
    match AlpacaPaper::from_env(key, secret) {
        Some(a) => BrokerChoice::Alpaca(a),
        None => BrokerChoice::DryRun(DryRunBroker { mock_equity: 100_000_000_000 }),
    }
}

/// A dollar amount comes to as many whole shares as it buys: one more would cost more, up to what
/// 32 bits count. It comes to none at no price, and a number of shares is that number at any.
pub proof fn law_sizes_convert_at_a_price(size: OrderSize, price: int)
    ensures
        match size {
            OrderSize::Shares { qty } => {
                &&& size.shares_at(price) == qty
                &&& size.dollars_at(price) == qty * price
            },
            OrderSize::Notional { dollars } => {
                let n = size.shares_at(price);
                &&& size.dollars_at(price) == dollars
                &&& price <= 0 || dollars <= 0 ==> n == 0
                &&& price > 0 && dollars >= 0 ==> {
                    &&& n * price <= dollars
                    &&& dollars < (n + 1) * price || n == u32::MAX
                }
            },
        },
{
    if let OrderSize::Notional { dollars } = size {
        if price > 0 {
            let n = size.shares_at(price);
            fixed::lemma_floor_in_range(dollars as int, price);
            fixed::lemma_floor_at_least(dollars as int, price, n);
            fixed::lemma_floor_at_least(dollars as int, price, n + 1);
        }
    }
}

/// A broker's error is shown with its kind in front of the broker's own words.
pub proof fn law_errors_show_their_kind(e: BrokerError)
    ensures
        match e {
            BrokerError::Http(m) => e.shown() == "http: "@ + m@,
            BrokerError::Auth(m) => e.shown() == "auth: "@ + m@,
            BrokerError::Rejected(m) => e.shown() == "broker rejected: "@ + m@,
            BrokerError::Unsupported(m) => e.shown() == "unsupported: "@ + m@,
        },
{
}

/// Every order can be sent to Alpaca but a dollar amount of options, and a request says what its
/// order asks for: its symbol and side, as a market order for the day, with either the shares or
/// the dollars.
pub proof fn law_alpaca_gets_what_was_ordered(order: OrderRequest, body: AlpacaOrder)
    requires
        alpaca_says(body, order@),
    ensures
        alpaca_refuses(order@) <==> order.asset_class is UsOption && order.size is Notional,
        body.symbol@ == order.symbol@,
        order.side is Buy ==> body.side@ == "buy"@,
        order.side is Sell ==> body.side@ == "sell"@,
        body.order_type@ == "market"@,
        body.time_in_force@ == "day"@,
        body.qty is Some <==> order.size is Shares,
        body.notional is Some <==> order.size is Notional,
        order.size matches OrderSize::Shares { qty } ==> body.qty->0@ == text::digits(qty as nat),
        order.size matches OrderSize::Notional { dollars } ==> body.notional->0@ == text::fixed2(
            dollars as int,
        ),
{
}

/// Alpaca takes every order but a dollar amount of options, which is refused as unsupported.
/// What it answers is kept: the body where it took the order, and as a refusal where it did not.
pub proof fn law_alpaca_takes_all_but_dollar_options(
    order: OrderRequest,
    body: BrokerResult<AlpacaOrder>,
    success: bool,
    text: String,
    reply: BrokerResult<String>,
)
    requires
        call_ensures(AlpacaPaper::order_body, (&order,), body),
        call_ensures(AlpacaPaper::order_reply, (success, text), reply),
    ensures
        body is Err <==> order.asset_class is UsOption && order.size is Notional,
        body matches Err(e) ==> e is Unsupported,
        body matches Ok(b) ==> alpaca_says(b, order@) && b.symbol@ == order.symbol@,
        success ==> reply == Ok::<String, BrokerError>(text),
        !success ==> reply == Err::<String, BrokerError>(BrokerError::Rejected(text)),
{
}

/// Orders go to Alpaca's paper API exactly where both settings are given, with those settings;
/// otherwise nothing is sent anywhere, and the account stands at $100,000.
pub proof fn law_brokers_are_paper(
    key: Option<String>,
    secret: Option<String>,
    choice: BrokerChoice,
)
    requires
        call_ensures(default_broker, (key, secret), choice),
    ensures
        match choice {
            BrokerChoice::Alpaca(a) => {
                &&& key == Some(a.key)
                &&& secret == Some(a.secret)
                &&& a.base@ == "https://paper-api.alpaca.markets"@
            },
            BrokerChoice::DryRun(d) => {
                &&& key is None || secret is None
                &&& d.mock_equity == 100_000 * 1_000_000
            },
        },
{
}

/// Counting shares and dollars of an order is what its size says.
pub proof fn law_sizes_are_counted(size: OrderSize, price: i64, shares: u32, dollars: i128)
    requires
        call_ensures(OrderSize::approx_shares, (&size, price), shares),
        call_ensures(OrderSize::notional, (&size, price), dollars),
    ensures
        size matches OrderSize::Shares { qty } ==> shares == qty && dollars == qty * price,
        size matches OrderSize::Notional { dollars: d } ==> {
            &&& dollars == d
            &&& price > 0 && d >= 0 ==> shares * price <= d && (d < (shares + 1) * price || shares
                == u32::MAX)
            &&& price <= 0 || d <= 0 ==> shares == 0
        },
{
    law_sizes_convert_at_a_price(size, price as int);
}

/// What a broker that fills orders by itself gives an order to be known by is the text of a
/// random identifier: 36 characters, with the version in its place.
pub proof fn law_fills_have_random_ids(status: &str, r: OrderResult)
    requires
        call_ensures(instant_fill, (status,), r),
    ensures
        r.status@ == status@,
        r.broker_order_id@.len() == 36,
        r.broker_order_id@[8] == '-',
        r.broker_order_id@[14] == '4',
{
    let id = choose|id: u128|
        ids::is_random_uuid(id) && r.broker_order_id@ == #[trigger] ids::hyphenated(id);
    ids::law_random_ids_look_random(id);
}

} // verus!
