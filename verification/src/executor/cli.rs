//! What the commands of the executor decide and say.

use vstd::prelude::*;
use vstd::string::*;

use crate::decimal;
use crate::decimal::{less_dec, Dec};
use crate::executor::clob::{LimitOrderParams, OrderBookSummary, OrderResponse, PriceLevel};
use crate::executor::config::AppConfig;
use crate::executor::gamma::Time;
use crate::executor::strategy::OrderSide;
use crate::json;
use crate::text::{join2, join3, Text};

verus! {

// Steps

/// What became of a step of a trial.
pub struct StepResult {
    pub name: String,
    pub success: bool,
    pub detail: String,
}

/// What the outcome of a step is.
pub struct StepView {
    pub name: Text,
    pub success: bool,
    pub detail: Text,
}

impl View for StepResult {
    type V = StepView;

    open spec fn view(&self) -> StepView {
        StepView { name: self.name@, success: self.success, detail: self.detail@ }
    }
}

/// The line of a step.
pub open spec fn step_line(s: StepView) -> Text {
    let tag = if s.success { "COMPLETED"@ } else { "NOT COMPLETED"@ };
    "["@ + tag + "] "@ + s.name + ": "@ + s.detail
}

impl StepResult {
    /// A step that was completed.
    pub fn ok(name: &str, detail: String) -> (s: StepResult)
        ensures
            s@ == (StepView { name: name@, success: true, detail: detail@ }),
    {
        StepResult { name: name.to_owned(), success: true, detail }
    }

    /// A step that was not completed.
    pub fn fail(name: &str, detail: String) -> (s: StepResult)
        ensures
            s@ == (StepView { name: name@, success: false, detail: detail@ }),
    {
        StepResult { name: name.to_owned(), success: false, detail }
    }

    /// The line of this step.
    pub fn line(&self) -> (s: String)
        ensures
            s@ == step_line(self@),
    {
        let tag: &str = if self.success { "COMPLETED" } else { "NOT COMPLETED" };
        let mut s: String = join3("[", tag, "] ");
        s.append(self.name.as_str());
        s.append(": ");
        s.append(self.detail.as_str());
        s
    }

    /// A step whose result is at hand.
    pub fn of(name: &str, r: Result<String, String>) -> (s: StepResult)
        ensures
            s@ == (match r {
                Ok(d) => StepView { name: name@, success: true, detail: d@ },
                Err(e) => StepView { name: name@, success: false, detail: e@ },
            }),
    {
        match r {
            Ok(d) => StepResult::ok(name, d),
            Err(e) => StepResult::fail(name, e),
        }
    }
}

/// The words for an order that was taken.
pub open spec fn order_words(o: OrderResponse) -> Text {
    "order_id="@ + o.order_id@ + ", status="@ + o.status@
}

/// The words for an order that was taken.
pub fn describe_order(o: &OrderResponse) -> (s: String)
    ensures
        s@ == order_words(*o),
{
    let mut s: String = join2("order_id=", o.order_id.as_str());
    s.append(", status=");
    s.append(o.status.as_str());
    s
}

/// The step of an order.
pub open spec fn order_view(name: Text, r: Result<OrderResponse, String>) -> StepView {
    match r {
        Ok(o) => StepView { name, success: true, detail: order_words(o) },
        Err(e) => StepView { name, success: false, detail: e@ },
    }
}

/// The step of an order.
pub fn order_step(name: &str, r: Result<OrderResponse, String>) -> (s: StepResult)
    ensures
        s@ == order_view(name@, r),
{
    match r {
        Ok(o) => StepResult::ok(name, describe_order(&o)),
        Err(e) => StepResult::fail(name, e),
    }
}

/// The step of a split: its transaction, or the fault that ends the trial.
pub open spec fn split_view(r: Result<Text, Text>) -> StepView {
    match r {
        Ok(tx) => StepView { name: "Split $5"@, success: true, detail: "tx="@ + tx },
        Err(e) => StepView { name: "Split $5"@, success: false, detail: e },
    }
}

/// The step of a split.
pub fn split_step(r: Result<String, String>) -> (s: StepResult)
    ensures
        s@ == split_view(
            match r {
                Ok(tx) => Ok(tx@),
                Err(e) => Err(e@),
            },
        ),
{
    match r {
        Ok(tx) => StepResult::ok("Split $5", join2("tx=", tx.as_str())),
        Err(e) => StepResult::fail("Split $5", e),
    }
}

/// The step of a registration.
pub open spec fn registration_view(r: Result<(), String>) -> StepView {
    match r {
        Ok(_) => StepView {
            name: "CLOB Registration"@,
            success: true,
            detail: "position registered"@,
        },
        Err(e) => StepView { name: "CLOB Registration"@, success: false, detail: e@ },
    }
}

/// The step of a registration.
pub fn registration_step(r: Result<(), String>) -> (s: StepResult)
    ensures
        s@ == registration_view(r),
{
    match r {
        Ok(_) => StepResult::ok("CLOB Registration", "position registered".to_owned()),
        Err(e) => StepResult::fail("CLOB Registration", e),
    }
}

/// What steps are.
pub open spec fn steps_view(steps: Seq<StepResult>) -> Seq<StepView> {
    steps.map_values(|s: StepResult| s@)
}

/// The step of an order of a batch: the first is for the first token, all others for the second.
pub open spec fn batch_view(i: int, o: OrderResponse) -> StepView {
    StepView {
        name: if i == 0 { "Post-Only Buy YES"@ } else { "Post-Only Buy NO"@ },
        success: true,
        detail: order_words(o),
    }
}

/// The steps of a batch of orders.
pub open spec fn batch_views(r: Result<Vec<OrderResponse>, String>) -> Seq<StepView> {
    match r {
        Ok(orders) => orders@.map(|i: int, o: OrderResponse| batch_view(i, o)),
        Err(e) => seq![StepView { name: "Batch Post-Only"@, success: false, detail: e@ }],
    }
}

/// The steps of a batch of orders.
pub fn batch_steps(r: Result<Vec<OrderResponse>, String>) -> (steps: Vec<StepResult>)
    ensures
        steps_view(steps@) == batch_views(r),
{
    let mut steps: Vec<StepResult> = Vec::new();
    match r {
        Ok(orders) => {
            let ghost all = orders@.map(|i: int, o: OrderResponse| batch_view(i, o));
            let mut i: usize = 0;
            assert(steps_view(steps@) =~= all.take(0));
            while i < orders.len()
                invariant
                    i <= orders@.len(),
                    all == orders@.map(|i: int, o: OrderResponse| batch_view(i, o)),
                    steps_view(steps@) == all.take(i as int),
                decreases orders@.len() - i,
            {
                let name: &str = if i == 0 { "Post-Only Buy YES" } else { "Post-Only Buy NO" };
                let ghost was = steps@;
                steps.push(StepResult::ok(name, describe_order(&orders[i])));
                assert(steps_view(steps@) =~= steps_view(was).push(all[i as int]));
                i = i + 1;
                assert(steps_view(steps@) =~= all.take(i as int));
            }
            assert(all.take(all.len() as int) =~= all);
        },
        Err(e) => {
            steps.push(StepResult::fail("Batch Post-Only", e));
            assert(steps_view(steps@) =~= seq![
                StepView { name: "Batch Post-Only"@, success: false, detail: e@ },
            ]);
        },
    }
    steps
}

/// How many steps were completed.
pub open spec fn completed(steps: Seq<StepView>) -> nat
    decreases steps.len(),
{
    if steps.len() == 0 {
        0
    } else {
        completed(steps.drop_last()) + if steps.last().success { 1nat } else { 0nat }
    }
}

/// How many steps were completed, and how many were not.
pub fn count_steps(steps: &Vec<StepResult>) -> (n: (usize, usize))
    ensures
        n.0 == completed(steps_view(steps@)),
        n.0 + n.1 == steps@.len(),
{
    let ghost all = steps_view(steps@);
    let mut passed: usize = 0;
    let mut i: usize = 0;
    assert(all.take(0) =~= seq![]);
    while i < steps.len()
        invariant
            i <= steps@.len(),
            all == steps_view(steps@),
            passed == completed(all.take(i as int)),
            passed <= i,
        decreases steps@.len() - i,
    {
        proof {
            assert(all.take(i + 1).drop_last() =~= all.take(i as int));
            assert(all.take(i + 1).last() == steps@[i as int]@);
        }
        if steps[i].success {
            passed = passed + 1;
        }
        i = i + 1;
    }
    assert(all.take(all.len() as int) =~= all);
    (passed, steps.len() - passed)
}

// Prices

/// The lowest price among levels; of equal ones the first.
pub open spec fn lowest(levels: Seq<PriceLevel>) -> Option<Dec>
    decreases levels.len(),
{
    if levels.len() == 0 {
        None
    } else {
        match lowest(levels.drop_last()) {
            None => Some(levels.last().price),
            Some(p) => if levels.last().price.less(p) { Some(levels.last().price) } else { Some(p) },
        }
    }
}

/// The prices of levels can be compared.
pub open spec fn prices_wf(levels: Seq<PriceLevel>) -> bool {
    forall|i: int| 0 <= i < levels.len() ==> (#[trigger] levels[i]).price.wf()
}

/// The best ask of a book.
pub fn best_ask_price(book: &OrderBookSummary) -> (p: Option<Dec>)
    requires
        prices_wf(book.asks@),
    ensures
        p == lowest(book.asks@),
{
    let mut best: Option<Dec> = None;
    let mut i: usize = 0;
    assert(book.asks@.take(0) =~= seq![]);
    while i < book.asks.len()
        invariant
            i <= book.asks@.len(),
            prices_wf(book.asks@),
            best == lowest(book.asks@.take(i as int)),
            best matches Some(p) ==> p.wf(),
        decreases book.asks@.len() - i,
    {
        let price: Dec = book.asks[i].price;
        proof {
            assert(book.asks@.take(i + 1).drop_last() =~= book.asks@.take(i as int));
            assert(book.asks@.take(i + 1).last() == book.asks@[i as int]);
            assert(book.asks@[i as int].price.wf());
        }
        best = match best {
            None => Some(price),
            Some(p) => if less_dec(price, p) { Some(price) } else { Some(p) },
        };
        i = i + 1;
    }
    assert(book.asks@.take(book.asks@.len() as int) =~= book.asks@);
    best
}

/// The price at which a trial buys: the best ask, or one half.
pub open spec fn live_price_of(asks: Seq<PriceLevel>) -> Dec {
    match lowest(asks) {
        Some(p) => p,
        None => Dec { mantissa: 50, scale: 2 },
    }
}

/// The price at which a trial buys.
pub fn live_price(book: &OrderBookSummary) -> (p: Dec)
    requires
        prices_wf(book.asks@),
    ensures
        p == live_price_of(book.asks@),
{
    match best_ask_price(book) {
        Some(p) => p,
        None => Dec { mantissa: 50, scale: 2 },
    }
}

// Markets

/// Seconds that a market has to have left for a trial.
pub const MIN_REMAINING_SECS: i64 = 240;

/// How often a new market is looked for.
pub const MARKET_ATTEMPTS: u32 = 60;

/// Seconds from one look for a new market to the next.
pub const MARKET_WAIT_SECS: u64 = 5;

/// Nanoseconds between two points in time.
pub open spec fn nanos_between(from: Time, to: Time) -> int {
    (to.secs - from.secs) * 1_000_000_000 + (to.nanos - from.nanos)
}

/// Whole seconds between two points in time, cut off towards zero.
pub open spec fn whole_secs(nanos: int) -> int {
    if nanos >= 0 {
        nanos / 1_000_000_000
    } else {
        -((-nanos) / 1_000_000_000)
    }
}

/// Whole seconds from one point in time to another.
pub fn seconds_until(now: Time, end: Time) -> (s: i128)
    ensures
        s == whole_secs(nanos_between(now, end)),
{
    let nanos: i128 = (end.secs as i128 - now.secs as i128) * 1_000_000_000 + (end.nanos as i128
        - now.nanos as i128);
    if nanos >= 0 {
        nanos / 1_000_000_000
    } else {
        let back: i128 = -nanos;
        -(back / 1_000_000_000)
    }
}

/// What is done about the market that runs: it is used, its end is waited for, or another one is
/// looked for at once.
#[derive(Clone, Copy, Debug, PartialEq, Eq, Structural)]
pub enum MarketChoice {
    UseIt,
    WaitThenLook(u64),
    Look,
}

/// What is done about the market that runs, given the seconds that it has left: it is used where
/// there are enough, and waited for where there are some.
pub open spec fn choice_of(remaining: int) -> MarketChoice {
    if remaining >= MIN_REMAINING_SECS {
        MarketChoice::UseIt
    } else if remaining > 0 {
        MarketChoice::WaitThenLook((remaining + 10) as u64)
    } else {
        MarketChoice::Look
    }
}

/// Decides what is done about the market that runs.
pub fn choose_market(remaining: i128) -> (c: MarketChoice)
    ensures
        c == choice_of(remaining as int),
{
    if remaining >= MIN_REMAINING_SECS as i128 {
        MarketChoice::UseIt
    } else if remaining > 0 {
        MarketChoice::WaitThenLook((remaining + 10) as u64)
    } else {
        MarketChoice::Look
    }
}

/// The search for the market of a trial: whether the market that runs was looked at, and how
/// often another one was looked for in vain.
#[derive(Clone, Copy, Debug, PartialEq, Eq, Structural)]
pub struct MarketSearch {
    pub begun: bool,
    pub attempts: u32,
}

/// What is done after a look for a market: it is used; another look is taken after a pause, which
/// is announced or not; or the search is given up after a pause.
#[derive(Clone, Copy, Debug, PartialEq, Eq, Structural)]
pub enum SearchStep {
    Use,
    LookAgain { after_secs: u64, announce: bool },
    GiveUp { after_secs: u64 },
}

/// What a look changes, and what is done after it, given the seconds that the market has left if
/// one was found. Only the first look asks for enough of them; every sixth pause is announced.
pub open spec fn search_step(s: MarketSearch, remaining: Option<int>) -> (MarketSearch, SearchStep) {
    let again = SearchStep::LookAgain { after_secs: 0, announce: false };
    match remaining {
        Some(r) => if s.begun {
            (s, SearchStep::Use)
        } else {
            let begun = MarketSearch { begun: true, ..s };
            match choice_of(r) {
                MarketChoice::UseIt => (begun, SearchStep::Use),
                MarketChoice::WaitThenLook(secs) => (
                    begun,
                    SearchStep::LookAgain { after_secs: secs, announce: false },
                ),
                MarketChoice::Look => (begun, again),
            }
        },
        None => if s.begun {
            let tried = MarketSearch { attempts: (s.attempts + 1) as u32, ..s };
            let after_secs = MARKET_WAIT_SECS;
            if s.attempts + 1 >= MARKET_ATTEMPTS {
                (tried, SearchStep::GiveUp { after_secs })
            } else {
                (tried, SearchStep::LookAgain { after_secs, announce: s.attempts % 6 == 0 })
            }
        } else {
            (MarketSearch { begun: true, ..s }, again)
        },
    }
}

impl MarketSearch {
    /// A search that has not begun.
    pub fn new() -> (s: MarketSearch)
        ensures
            s == (MarketSearch { begun: false, attempts: 0 }),
    {
        MarketSearch { begun: false, attempts: 0 }
    }

    /// What is done after a look for a market.
    pub fn look(&mut self, remaining: Option<i128>) -> (step: SearchStep)
        requires
            old(self).attempts < u32::MAX,
        ensures
            (*final(self), step) == search_step(
                *old(self),
                match remaining {
                    Some(r) => Some(r as int),
                    None => None,
                },
            ),
    {
        match remaining {
            Some(r) => {
                if self.begun {
                    return SearchStep::Use;
                }
                self.begun = true;
                match choose_market(r) {
                    MarketChoice::UseIt => SearchStep::Use,
                    MarketChoice::WaitThenLook(secs) => SearchStep::LookAgain {
                        after_secs: secs,
                        announce: false,
                    },
                    MarketChoice::Look => SearchStep::LookAgain { after_secs: 0, announce: false },
                }
            },
            None => {
                if !self.begun {
                    self.begun = true;
                    return SearchStep::LookAgain { after_secs: 0, announce: false };
                }
                let announce: bool = self.attempts % 6 == 0;
                self.attempts = self.attempts + 1;
                if self.attempts >= MARKET_ATTEMPTS {
                    SearchStep::GiveUp { after_secs: MARKET_WAIT_SECS }
                } else {
                    SearchStep::LookAgain { after_secs: MARKET_WAIT_SECS, announce }
                }
            },
        }
    }
}

// Orders of trials

/// What is done about a test order.
pub enum TestOrder {
    Rehearse,
    Refuse(String),
    Place(LimitOrderParams),
}

/// Whether orders are only rehearsed, test orders are not enabled, or the market has no token; or
/// else the order: five of the first token at ten cents.
pub fn plan_test_order(c: &AppConfig, clob_token_ids: &Vec<String>) -> (plan: TestOrder)
    ensures
        match plan {
            TestOrder::Rehearse => c.dry_run,
            TestOrder::Refuse(m) => !c.dry_run && if !c.enable_test_order {
                m@ == "ENABLE_TEST_ORDER must be true to place real orders"@
            } else {
                clob_token_ids@.len() == 0 && m@ == "No YES token ID found"@
            },
            TestOrder::Place(o) => !c.dry_run && c.enable_test_order && clob_token_ids@.len() > 0
                && o.token_id@ == clob_token_ids@[0]@ && o.side == OrderSide::Buy && o.price == (
            Dec { mantissa: 10, scale: 2 }) && o.size == (Dec { mantissa: 50, scale: 1 }),
        },
{
    if c.dry_run {
        return TestOrder::Rehearse;
    }
    if !c.enable_test_order {
        return TestOrder::Refuse(
            "ENABLE_TEST_ORDER must be true to place real orders".to_owned(),
        );
    }
    if clob_token_ids.len() == 0 {
        return TestOrder::Refuse("No YES token ID found".to_owned());
    }
    TestOrder::Place(
        LimitOrderParams {
            token_id: clob_token_ids[0].clone(),
            side: OrderSide::Buy,
            price: Dec { mantissa: 10, scale: 2 },
            size: Dec { mantissa: 50, scale: 1 },
        },
    )
}

/// Why a trial cannot begin: orders are only rehearsed, or the market lacks a token.
pub open spec fn flow_fault(dry_run: bool, tokens: int) -> Option<Text> {
    if dry_run {
        Some("test-flow requires DRY_RUN=false (set in .env)"@)
    } else if tokens < 1 {
        Some("no YES token ID"@)
    } else if tokens < 2 {
        Some("no NO token ID"@)
    } else {
        None
    }
}

/// Whether a trial can begin.
pub fn check_flow(dry_run: bool, tokens: usize) -> (r: Result<(), String>)
    ensures
        match (r, flow_fault(dry_run, tokens as int)) {
            (Ok(_), None) => true,
            (Err(m), Some(fault)) => m@ == fault,
            _ => false,
        },
{
    if dry_run {
        return Err("test-flow requires DRY_RUN=false (set in .env)".to_owned());
    }
    if tokens < 1 {
        return Err("no YES token ID".to_owned());
    }
    if tokens < 2 {
        return Err("no NO token ID".to_owned());
    }
    Ok(())
}

/// A bid for five of a token.
pub open spec fn is_bid(o: LimitOrderParams, token: Text, price: Dec) -> bool {
    &&& o.token_id@ == token
    &&& o.side == OrderSide::Buy
    &&& o.price == price
    &&& o.size == (Dec { mantissa: 50, scale: 1 })
}

fn bid(token: &str, price: Dec) -> (o: LimitOrderParams)
    ensures
        is_bid(o, token@, price),
{
    LimitOrderParams {
        token_id: token.to_owned(),
        side: OrderSide::Buy,
        price,
        size: Dec { mantissa: 50, scale: 1 },
    }
}

// Trials

/// How much a trial splits.
pub const FLOW_SPLIT: u64 = 5;

/// The price of the resting bids of a trial, 0.20.
pub const FLOW_BID_MANTISSA: i128 = 20;

/// Where a trial stands: what it does next, or that it is over, with a summary of its steps or
/// without one.
#[derive(Clone, Copy, Debug, PartialEq, Eq, Structural)]
pub enum FlowStage {
    Split,
    Connect,
    Register,
    YesBook,
    NoBook,
    FillAndKill,
    FillOrKill,
    Batch,
    Over { summary: bool },
}

/// What a trial does next.
pub enum FlowAction {
    Split { amount: u64 },
    Connect,
    Register,
    FetchBook { token_id: String },
    FillAndKill(LimitOrderParams),
    FillOrKill(LimitOrderParams),
    Batch { yes: LimitOrderParams, no: LimitOrderParams },
    Finish { summary: bool, failure: Option<String> },
}

/// Why a split failed: all that is known, and the last cause.
pub struct SplitFault {
    pub detail: String,
    pub cause: String,
}

/// What came of an action of a trial.
pub enum FlowEvent {
    Split(Result<String, SplitFault>),
    Connected(Result<(), String>),
    Registered(Result<(), String>),
    Book(Result<OrderBookSummary, String>),
    Order(Result<OrderResponse, String>),
    Batch(Result<Vec<OrderResponse>, String>),
}

/// The prices of a book can be compared.
pub open spec fn event_wf(e: FlowEvent) -> bool {
    e matches FlowEvent::Book(Ok(book)) ==> prices_wf(book.asks@)
}

/// A trial: the two tokens of its market, where it stands, the best asks, the steps so far, and
/// why it failed, if it did.
pub struct TestFlow {
    pub yes_token: String,
    pub no_token: String,
    pub stage: FlowStage,
    pub yes_ask: Dec,
    pub no_ask: Dec,
    pub steps: Vec<StepResult>,
    pub failure: Option<String>,
}

/// What a trial is.
pub struct FlowView {
    pub yes_token: Text,
    pub no_token: Text,
    pub stage: FlowStage,
    pub yes_ask: Dec,
    pub no_ask: Dec,
    pub steps: Seq<StepView>,
    pub failure: Option<Text>,
}

impl View for TestFlow {
    type V = FlowView;

    open spec fn view(&self) -> FlowView {
        FlowView {
            yes_token: self.yes_token@,
            no_token: self.no_token@,
            stage: self.stage,
            yes_ask: self.yes_ask,
            no_ask: self.no_ask,
            steps: steps_view(self.steps@),
            failure: json::opt_string(self.failure),
        }
    }
}

/// A trial at its beginning.
pub open spec fn flow_start(yes_token: Text, no_token: Text) -> FlowView {
    FlowView {
        yes_token,
        no_token,
        stage: FlowStage::Split,
        yes_ask: Dec { mantissa: 50, scale: 2 },
        no_ask: Dec { mantissa: 50, scale: 2 },
        steps: seq![],
        failure: None,
    }
}

/// A trial that goes on after a step.
pub open spec fn flow_with(f: FlowView, step: StepView, stage: FlowStage) -> FlowView {
    FlowView { steps: f.steps.push(step), stage, ..f }
}

/// A trial that ends at once.
pub open spec fn flow_broken(f: FlowView, reason: Text) -> FlowView {
    FlowView { stage: FlowStage::Over { summary: false }, failure: Some(reason), ..f }
}

/// A trial after an action. A split that fails ends it, with a summary; so does, without one, a
/// connection or a book that cannot be had. Any other step is recorded, and the trial goes on. An
/// event that does not fit what was done changes nothing.
pub open spec fn flow_after(f: FlowView, e: FlowEvent) -> FlowView {
    match (f.stage, e) {
        (FlowStage::Split, FlowEvent::Split(Ok(tx))) => flow_with(
            f,
            split_view(Ok(tx@)),
            FlowStage::Connect,
        ),
        (FlowStage::Split, FlowEvent::Split(Err(x))) => FlowView {
            failure: Some("Split failed, cannot continue: "@ + x.cause@),
            ..flow_with(f, split_view(Err(x.detail@)), FlowStage::Over { summary: true })
        },
        (FlowStage::Connect, FlowEvent::Connected(Ok(_))) => FlowView {
            stage: FlowStage::Register,
            ..f
        },
        (FlowStage::Connect, FlowEvent::Connected(Err(m))) => flow_broken(f, m@),
        (FlowStage::Register, FlowEvent::Registered(r)) => flow_with(
            f,
            registration_view(r),
            FlowStage::YesBook,
        ),
        (FlowStage::YesBook, FlowEvent::Book(Ok(book))) => FlowView {
            yes_ask: live_price_of(book.asks@),
            stage: FlowStage::NoBook,
            ..f
        },
        (FlowStage::NoBook, FlowEvent::Book(Ok(book))) => FlowView {
            no_ask: live_price_of(book.asks@),
            stage: FlowStage::FillAndKill,
            ..f
        },
        (FlowStage::YesBook | FlowStage::NoBook, FlowEvent::Book(Err(m))) => flow_broken(f, m@),
        (FlowStage::FillAndKill, FlowEvent::Order(r)) => flow_with(
            f,
            order_view("FAK Buy YES"@, r),
            FlowStage::FillOrKill,
        ),
        (FlowStage::FillOrKill, FlowEvent::Order(r)) => flow_with(
            f,
            order_view("FOK Buy NO"@, r),
            FlowStage::Batch,
        ),
        (FlowStage::Batch, FlowEvent::Batch(r)) => FlowView {
            steps: f.steps + batch_views(r),
            stage: FlowStage::Over { summary: true },
            ..f
        },
        _ => f,
    }
}

/// What a trial does next.
pub open spec fn is_next(a: FlowAction, f: FlowView) -> bool {
    match f.stage {
        FlowStage::Split => a == FlowAction::Split { amount: FLOW_SPLIT },
        FlowStage::Connect => a == FlowAction::Connect,
        FlowStage::Register => a == FlowAction::Register,
        FlowStage::YesBook => a matches FlowAction::FetchBook { token_id } && token_id@
            == f.yes_token,
        FlowStage::NoBook => a matches FlowAction::FetchBook { token_id } && token_id@
            == f.no_token,
        FlowStage::FillAndKill => a matches FlowAction::FillAndKill(o) && is_bid(
            o,
            f.yes_token,
            f.yes_ask,
        ),
        FlowStage::FillOrKill => a matches FlowAction::FillOrKill(o) && is_bid(
            o,
            f.no_token,
            f.no_ask,
        ),
        FlowStage::Batch => {
            let price = Dec { mantissa: FLOW_BID_MANTISSA, scale: 2 };
            a matches FlowAction::Batch { yes, no } && is_bid(yes, f.yes_token, price) && is_bid(
                no,
                f.no_token,
                price,
            )
        },
        FlowStage::Over { summary } => a matches FlowAction::Finish { summary: s, failure }
            && s == summary && json::opt_string(failure) == f.failure,
    }
}

impl TestFlow {
    /// A trial on a market with these tokens, where it has both.
    pub fn new(clob_token_ids: &Vec<String>) -> (r: Result<TestFlow, String>)
        ensures
            match (r, flow_fault(false, clob_token_ids@.len() as int)) {
                (Ok(f), None) => f@ == flow_start(clob_token_ids@[0]@, clob_token_ids@[1]@),
                (Err(m), Some(fault)) => m@ == fault,
                _ => false,
            },
    {
        match check_flow(false, clob_token_ids.len()) {
            Ok(_) => {
                let half: Dec = Dec { mantissa: 50, scale: 2 };
                let f: TestFlow = TestFlow {
                    yes_token: clob_token_ids[0].clone(),
                    no_token: clob_token_ids[1].clone(),
                    stage: FlowStage::Split,
                    yes_ask: half,
                    no_ask: half,
                    steps: Vec::new(),
                    failure: None,
                };
                assert(steps_view(f.steps@) =~= seq![]);
                Ok(f)
            },
            Err(m) => Err(m),
        }
    }

    /// What the trial does next.
    pub fn next(&self) -> (a: FlowAction)
        ensures
            is_next(a, self@),
    {
        match self.stage {
            FlowStage::Split => FlowAction::Split { amount: FLOW_SPLIT },
            FlowStage::Connect => FlowAction::Connect,
            FlowStage::Register => FlowAction::Register,
            FlowStage::YesBook => FlowAction::FetchBook { token_id: self.yes_token.clone() },
            FlowStage::NoBook => FlowAction::FetchBook { token_id: self.no_token.clone() },
            FlowStage::FillAndKill => FlowAction::FillAndKill(
                bid(self.yes_token.as_str(), self.yes_ask),
            ),
            FlowStage::FillOrKill => FlowAction::FillOrKill(
                bid(self.no_token.as_str(), self.no_ask),
            ),
            FlowStage::Batch => {
                let price: Dec = Dec { mantissa: FLOW_BID_MANTISSA, scale: 2 };
                FlowAction::Batch {
                    yes: bid(self.yes_token.as_str(), price),
                    no: bid(self.no_token.as_str(), price),
                }
            },
            FlowStage::Over { summary } => {
                let failure: Option<String> = match &self.failure {
                    Some(m) => Some(m.clone()),
                    None => None,
                };
                FlowAction::Finish { summary, failure }
            },
        }
    }

    fn record(&mut self, step: StepResult, stage: FlowStage)
        ensures
            final(self)@ == flow_with(old(self)@, step@, stage),
    {
        let ghost was = self.steps@;
        self.steps.push(step);
        self.stage = stage;
        assert(steps_view(self.steps@) =~= steps_view(was).push(step@));
    }

    fn give_up(&mut self, reason: String)
        ensures
            final(self)@ == flow_broken(old(self)@, reason@),
    {
        self.stage = FlowStage::Over { summary: false };
        self.failure = Some(reason);
    }

    /// Takes in what came of an action.
    pub fn take(&mut self, e: FlowEvent)
        requires
            event_wf(e),
        ensures
            final(self)@ == flow_after(old(self)@, e),
    {
        match (self.stage, e) {
            (FlowStage::Split, FlowEvent::Split(Ok(tx))) => {
                self.record(split_step(Ok(tx)), FlowStage::Connect);
            },
            (FlowStage::Split, FlowEvent::Split(Err(x))) => {
                let reason: String = join2("Split failed, cannot continue: ", x.cause.as_str());
                self.record(split_step(Err(x.detail)), FlowStage::Over { summary: true });
                self.failure = Some(reason);
            },
            (FlowStage::Connect, FlowEvent::Connected(Ok(_))) => {
                self.stage = FlowStage::Register;
            },
            (FlowStage::Connect, FlowEvent::Connected(Err(m))) => {
                self.give_up(m);
            },
            (FlowStage::Register, FlowEvent::Registered(r)) => {
                self.record(registration_step(r), FlowStage::YesBook);
            },
            (FlowStage::YesBook, FlowEvent::Book(Ok(book))) => {
                self.yes_ask = live_price(&book);
                self.stage = FlowStage::NoBook;
            },
            (FlowStage::NoBook, FlowEvent::Book(Ok(book))) => {
                self.no_ask = live_price(&book);
                self.stage = FlowStage::FillAndKill;
            },
            (FlowStage::YesBook, FlowEvent::Book(Err(m))) => {
                self.give_up(m);
            },
            (FlowStage::NoBook, FlowEvent::Book(Err(m))) => {
                self.give_up(m);
            },
            (FlowStage::FillAndKill, FlowEvent::Order(r)) => {
                self.record(order_step("FAK Buy YES", r), FlowStage::FillOrKill);
            },
            (FlowStage::FillOrKill, FlowEvent::Order(r)) => {
                self.record(order_step("FOK Buy NO", r), FlowStage::Batch);
            },
            (FlowStage::Batch, FlowEvent::Batch(r)) => {
                let mut more: Vec<StepResult> = batch_steps(r);
                let ghost was = self.steps@;
                let ghost added = more@;
                self.steps.append(&mut more);
                self.stage = FlowStage::Over { summary: true };
                assert(steps_view(self.steps@) =~= steps_view(was) + steps_view(added));
            },
            _ => {},
        }
    }
}

/// How far a stage lies from the beginning of a trial.
pub open spec fn flow_rank(s: FlowStage) -> int {
    match s {
        FlowStage::Split => 0,
        FlowStage::Connect => 1,
        FlowStage::Register => 2,
        FlowStage::YesBook => 3,
        FlowStage::NoBook => 4,
        FlowStage::FillAndKill => 5,
        FlowStage::FillOrKill => 6,
        FlowStage::Batch => 7,
        FlowStage::Over { .. } => 8,
    }
}

/// A trial never goes back, keeps every step that it recorded, and does nothing more once it is
/// over.
pub proof fn trials_only_advance(f: FlowView, e: FlowEvent)
    ensures
        flow_rank(flow_after(f, e).stage) >= flow_rank(f.stage),
        f.steps.is_prefix_of(flow_after(f, e).steps),
        f.stage is Over ==> flow_after(f, e) == f,
{
}

/// Only a split that fails ends a trial among the steps that it records: a registration or an
/// order that fails is recorded like one that succeeds, and the trial goes on alike.
pub proof fn failed_orders_do_not_end_a_trial(
    f: FlowView,
    good: OrderResponse,
    bad: String,
)
    ensures
        flow_after(f, FlowEvent::Order(Ok(good))).stage == flow_after(
            f,
            FlowEvent::Order(Err(bad)),
        ).stage,
        flow_after(f, FlowEvent::Registered(Ok(()))).stage == flow_after(
            f,
            FlowEvent::Registered(Err(bad)),
        ).stage,
        f.stage == FlowStage::Split ==> flow_after(
            f,
            FlowEvent::Split(Err(SplitFault { detail: bad, cause: bad })),
        ).stage == (FlowStage::Over { summary: true }),
{
}

/// The best ask is the price of a level, and no level has a lower one.
pub proof fn best_asks_are_lowest(levels: Seq<PriceLevel>, i: int)
    requires
        0 <= i < levels.len(),
    ensures
        lowest(levels) is Some,
        !levels[i].price.less(lowest(levels)->0),
        exists|k: int| 0 <= k < levels.len() && (#[trigger] levels[k]).price == lowest(levels)->0,
        live_price_of(levels) == lowest(levels)->0,
    decreases levels.len(),
{
    let n = levels.len() - 1;
    let fewer = levels.drop_last();
    assert(levels[n] == levels.last());
    decimal::numbers_compare_by_their_units(levels[i].price, levels[i].price);
    if n > 0 {
        let j = if i < n { i } else { 0 };
        best_asks_are_lowest(fewer, j);
        let p = lowest(fewer)->0;
        let k = choose|k: int| 0 <= k < fewer.len() && (#[trigger] fewer[k]).price == p;
        assert(levels[k] == fewer[k]);
        if levels.last().price.less(p) && i < n {
            assert(levels[i] == fewer[i]);
            if levels[i].price.less(levels.last().price) {
                decimal::order_of_numbers_is_transitive(levels[i].price, levels.last().price, p);
            }
        }
    }
}

/// Without an ask a trial buys at one half.
pub proof fn trials_buy_at_half_without_asks()
    ensures
        live_price_of(Seq::empty()) == (Dec { mantissa: 50, scale: 2 }),
{
}

/// A market is used that has four minutes left; one that has less is waited for until ten seconds
/// after its end; one that is over is not.
pub proof fn markets_are_used_in_time(remaining: int)
    requires
        remaining <= i64::MAX,
    ensures
        choice_of(remaining) == MarketChoice::UseIt <==> remaining >= 240,
        0 < remaining < 240 ==> choice_of(remaining) == MarketChoice::WaitThenLook(
            (remaining + 10) as u64,
        ),
        remaining <= 0 ==> choice_of(remaining) == MarketChoice::Look,
{
}

/// Seconds are counted whole: those until a point in time, towards zero.
pub proof fn seconds_are_counted_whole(from: Time, to: Time)
    ensures
        ({
            let nanos = (to.secs - from.secs) * 1_000_000_000 + to.nanos - from.nanos;
            let s = whole_secs(nanos_between(from, to));
            &&& nanos >= 0 ==> 0 <= s && s * 1_000_000_000 <= nanos < (s + 1) * 1_000_000_000
            &&& nanos < 0 ==> s <= 0 && (s - 1) * 1_000_000_000 < nanos <= s * 1_000_000_000
        }),
{
}

/// Once a search has begun, any market that is found is used, and it is given up after the
/// sixtieth look in vain; until then another look is taken after five seconds.
pub proof fn searches_end(s: MarketSearch, r: int)
    requires
        s.attempts < u32::MAX,
    ensures
        s.begun ==> search_step(s, Some(r)) == (s, SearchStep::Use),
        s.begun ==> search_step(s, None).0 == (MarketSearch {
            begun: true,
            attempts: (s.attempts + 1) as u32,
        }),
        s.begun && s.attempts + 1 >= 60 ==> search_step(s, None).1 == (SearchStep::GiveUp {
            after_secs: 5,
        }),
        s.begun && s.attempts + 1 < 60 ==> search_step(s, None).1 == (SearchStep::LookAgain {
            after_secs: 5,
            announce: s.attempts % 6 == 0,
        }),
        !s.begun ==> search_step(s, None) == (
            MarketSearch { begun: true, ..s },
            SearchStep::LookAgain { after_secs: 0, announce: false },
        ),
        !s.begun && r >= 240 ==> search_step(s, Some(r)).1 == SearchStep::Use,
        !s.begun && r < 240 ==> search_step(s, Some(r)).1 is LookAgain,
{
}

/// A trial splits five, connects, registers, looks at both books, buys five of each token at its
/// own best ask, and at last bids twenty cents for five of each.
pub proof fn trials_buy_both_tokens(a: FlowAction, f: FlowView)
    requires
        is_next(a, f),
    ensures
        match f.stage {
            FlowStage::Split => a == (FlowAction::Split { amount: 5 }),
            FlowStage::Connect => a is Connect,
            FlowStage::Register => a is Register,
            FlowStage::YesBook => a matches FlowAction::FetchBook { token_id } && token_id@
                == f.yes_token,
            FlowStage::NoBook => a matches FlowAction::FetchBook { token_id } && token_id@
                == f.no_token,
            FlowStage::FillAndKill => a matches FlowAction::FillAndKill(o) && o.token_id@
                == f.yes_token && o.side == OrderSide::Buy && o.price == f.yes_ask && o.size == (Dec {
                mantissa: 50,
                scale: 1,
            }),
            FlowStage::FillOrKill => a matches FlowAction::FillOrKill(o) && o.token_id@
                == f.no_token && o.side == OrderSide::Buy && o.price == f.no_ask && o.size == (Dec {
                mantissa: 50,
                scale: 1,
            }),
            FlowStage::Batch => a matches FlowAction::Batch { yes, no } && yes.token_id@
                == f.yes_token && no.token_id@ == f.no_token && yes.side == OrderSide::Buy && no.side
                == OrderSide::Buy && yes.price == (Dec { mantissa: 20, scale: 2 }) && no.price == (
            Dec { mantissa: 20, scale: 2 }) && yes.size == (Dec { mantissa: 50, scale: 1 })
                && no.size == (Dec { mantissa: 50, scale: 1 }),
            FlowStage::Over { .. } => a is Finish,
        },
{
}

/// A trial goes from one stage to the next with what came of its actions, keeps the best ask of
/// each token, and records every step with its success.
pub proof fn trials_go_on(f: FlowView, e: FlowEvent)
    ensures
        ({
            let g = flow_after(f, e);
            &&& g.yes_token == f.yes_token && g.no_token == f.no_token
            &&& match (f.stage, e) {
                (FlowStage::Split, FlowEvent::Split(Ok(_))) => g.stage == FlowStage::Connect
                    && g.steps.len() == f.steps.len() + 1 && g.steps.last().success,
                (FlowStage::Split, FlowEvent::Split(Err(_))) => g.stage == (FlowStage::Over {
                    summary: true,
                }) && g.failure is Some && g.steps.len() == f.steps.len() + 1
                    && !g.steps.last().success,
                (FlowStage::Connect, FlowEvent::Connected(Ok(_))) => g == (FlowView {
                    stage: FlowStage::Register,
                    ..f
                }),
                (FlowStage::Connect, FlowEvent::Connected(Err(m))) => g.stage == (FlowStage::Over {
                    summary: false,
                }) && g.failure == Some(m@) && g.steps == f.steps,
                (FlowStage::Register, FlowEvent::Registered(r)) => g.stage == FlowStage::YesBook
                    && g.steps.len() == f.steps.len() + 1 && g.steps.last().success == (r is Ok),
                (FlowStage::YesBook, FlowEvent::Book(Ok(book))) => g == (FlowView {
                    yes_ask: live_price_of(book.asks@),
                    stage: FlowStage::NoBook,
                    ..f
                }),
                (FlowStage::NoBook, FlowEvent::Book(Ok(book))) => g == (FlowView {
                    no_ask: live_price_of(book.asks@),
                    stage: FlowStage::FillAndKill,
                    ..f
                }),
                (FlowStage::YesBook, FlowEvent::Book(Err(m))) => g.stage is Over && g.failure
                    == Some(m@),
                (FlowStage::NoBook, FlowEvent::Book(Err(m))) => g.stage is Over && g.failure
                    == Some(m@),
                (FlowStage::FillAndKill, FlowEvent::Order(r)) => g.stage == FlowStage::FillOrKill
                    && g.steps.len() == f.steps.len() + 1 && g.steps.last().success == (r is Ok)
                    && g.steps.last().name == "FAK Buy YES"@,
                (FlowStage::FillOrKill, FlowEvent::Order(r)) => g.stage == FlowStage::Batch
                    && g.steps.len() == f.steps.len() + 1 && g.steps.last().success == (r is Ok)
                    && g.steps.last().name == "FOK Buy NO"@,
                (FlowStage::Batch, FlowEvent::Batch(r)) => g.stage == (FlowStage::Over {
                    summary: true,
                }) && match r {
                    Ok(orders) => g.steps.len() == f.steps.len() + orders@.len() && forall|k: int|
                        0 <= k < orders@.len() ==> (#[trigger] g.steps[f.steps.len() + k]).success
                            && g.steps[f.steps.len() + k].detail == "order_id="@
                            + orders@[k].order_id@ + ", status="@ + orders@[k].status@
                            && g.steps[f.steps.len() + k].name == (if k == 0 {
                            "Post-Only Buy YES"@
                        } else {
                            "Post-Only Buy NO"@
                        }),
                    Err(m) => g.steps.len() == f.steps.len() + 1 && !g.steps.last().success
                        && g.steps.last().detail == m@,
                },
                _ => g == f,
            }
        }),
{
}

/// A trial cannot begin while orders are only rehearsed or without both tokens.
pub proof fn trials_need_both_tokens(dry_run: bool, tokens: int)
    ensures
        flow_fault(dry_run, tokens) is None <==> !dry_run && tokens >= 2,
{
}

/// Every completed step is counted, and no other.
pub proof fn completed_steps_are_counted(steps: Seq<StepView>, s: StepView)
    ensures
        completed(steps.push(s)) == completed(steps) + (if s.success { 1int } else { 0 }),
        completed(Seq::empty()) == 0,
{
    assert(steps.push(s).drop_last() =~= steps);
}

/// The line of a step tells whether it was completed, its name and its detail.
pub proof fn steps_are_told(name: Text, detail: Text)
    ensures
        step_line(StepView { name, success: true, detail }) == "[COMPLETED] "@ + name + ": "@ + detail,
        step_line(StepView { name, success: false, detail }) == "[NOT COMPLETED] "@ + name + ": "@
            + detail,
{
    reveal_strlit("[");
    reveal_strlit("] ");
    reveal_strlit("COMPLETED");
    reveal_strlit("NOT COMPLETED");
    reveal_strlit("[COMPLETED] ");
    reveal_strlit("[NOT COMPLETED] ");
    assert("["@ + "COMPLETED"@ + "] "@ =~= "[COMPLETED] "@);
    assert("["@ + "NOT COMPLETED"@ + "] "@ =~= "[NOT COMPLETED] "@);
}

/// A trial begins with a split, without steps, and with one half for both tokens until their books
/// are known.
pub proof fn trials_begin_with_a_split(yes_token: Text, no_token: Text)
    ensures
        ({
            let f = flow_start(yes_token, no_token);
            &&& f.stage == FlowStage::Split && f.steps.len() == 0 && f.failure is None
            &&& f.yes_token == yes_token && f.no_token == no_token
            &&& f.yes_ask == (Dec { mantissa: 50, scale: 2 }) && f.no_ask == (Dec {
                mantissa: 50,
                scale: 2,
            })
        }),
{
}

} // verus!
