//! What a strategy holds in a simulation.
//!
//! Sums and products of prices and sizes are computed elsewhere and handed in.

use vstd::prelude::*;

use crate::float;
use crate::float::at_most;
use crate::sim::market_data::TokenSide;
use crate::sim::order;
use crate::sim::order::{Fill, OrderSide};

verus! {

/// The shares of a token: those that can be sold, and those that were bought a moment ago, each
/// with the time from which on it can be sold.
pub struct TokenInventory {
    pub sellable: u64,
    pub locked: Vec<(u64, i64)>,
}

/// What the shares of a token are.
pub struct InventoryView {
    pub sellable: u64,
    pub locked: Seq<(u64, i64)>,
}

impl View for TokenInventory {
    type V = InventoryView;

    open spec fn view(&self) -> InventoryView {
        InventoryView { sellable: self.sellable, locked: self.locked@ }
    }
}

/// The shares among some that can be sold from a time on.
pub open spec fn released(locked: Seq<(u64, i64)>, now_ms: i64) -> Seq<u64> {
    locked.filter(|l: (u64, i64)| l.1 <= now_ms).map_values(|l: (u64, i64)| l.0)
}

/// The shares among some that cannot be sold yet.
pub open spec fn still_locked(locked: Seq<(u64, i64)>, now_ms: i64) -> Seq<(u64, i64)> {
    locked.filter(|l: (u64, i64)| !(l.1 <= now_ms))
}

/// Shares can be sold: what there is is no less than their number, but for a trifle.
/// `qty_less` is that number without the trifle.
pub open spec fn covers(i: InventoryView, qty_less: u64) -> bool {
    float::le(qty_less, i.sellable)
}

impl TokenInventory {
    /// No shares.
    pub fn new() -> (i: TokenInventory)
        ensures
            i@ == (InventoryView { sellable: 0, locked: seq![] }),
    {
        let i: TokenInventory = TokenInventory { sellable: 0, locked: Vec::new() };
        assert(i@.locked =~= seq![]);
        i
    }

    /// Unlocks the shares that can be sold at a time, and gives their numbers.
    pub fn tick(&mut self, now_ms: i64) -> (free: Vec<u64>)
        ensures
            free@ == released(old(self)@.locked, now_ms),
            final(self)@ == (InventoryView {
                locked: still_locked(old(self)@.locked, now_ms),
                ..old(self)@
            }),
    {
        let mut free: Vec<u64> = Vec::new();
        let mut rest: Vec<(u64, i64)> = Vec::new();
        let ghost all = self.locked@;
        let mut i: usize = 0;
        proof {
            reveal(Seq::filter);
            assert(all.take(0) =~= seq![]);
            assert(free@ =~= released(all.take(0), now_ms));
            assert(rest@ =~= still_locked(all.take(0), now_ms));
        }
        while i < self.locked.len()
            invariant
                i <= self.locked@.len(),
                all == self.locked@,
                free@ == released(all.take(i as int), now_ms),
                rest@ == still_locked(all.take(i as int), now_ms),
            decreases self.locked@.len() - i,
        {
            let l: (u64, i64) = self.locked[i];
            let ghost upto = all.take(i + 1);
            proof {
                reveal(Seq::filter);
                assert(upto.drop_last() =~= all.take(i as int));
                assert(upto.last() == l);
            }
            if l.1 <= now_ms {
                free.push(l.0);
            } else {
                rest.push(l);
            }
            assert(free@ =~= released(upto, now_ms));
            assert(rest@ =~= still_locked(upto, now_ms));
            i = i + 1;
        }
        assert(all.take(all.len() as int) =~= all);
        self.locked = rest;
        free
    }

    /// Adds shares that were bought and can be sold after a cooldown.
    pub fn add_from_market(&mut self, qty: u64, fill_ts_ms: i64, cooldown_ms: u64)
        requires
            cooldown_ms <= order::LONGEST_LATENCY_MS,
            fill_ts_ms + order::LONGEST_LATENCY_MS <= i64::MAX,
        ensures
            final(self)@ == (InventoryView {
                locked: old(self)@.locked.push((qty, (fill_ts_ms + cooldown_ms) as i64)),
                ..old(self)@
            }),
    {
        self.locked.push((qty, fill_ts_ms + cooldown_ms as i64));
    }

    /// Whether shares can be sold.
    pub fn can_sell(&self, qty_less: u64) -> (b: bool)
        ensures
            b == covers(self@, qty_less),
    {
        at_most(qty_less, self.sellable)
    }
}

/// What a strategy holds: money, shares, and what it has done so far.
pub struct Position {
    pub cash: u64,
    pub up: TokenInventory,
    pub down: TokenInventory,
    pub fills: Vec<Fill>,
    pub total_volume: u64,
    pub orders_submitted: u64,
    pub orders_rejected: u64,
}

/// What a position is.
pub struct PositionView {
    pub cash: u64,
    pub up: InventoryView,
    pub down: InventoryView,
    pub fills: Seq<Fill>,
    pub total_volume: u64,
    pub orders_submitted: u64,
    pub orders_rejected: u64,
}

impl View for Position {
    type V = PositionView;

    open spec fn view(&self) -> PositionView {
        PositionView {
            cash: self.cash,
            up: self.up@,
            down: self.down@,
            fills: self.fills@,
            total_volume: self.total_volume,
            orders_submitted: self.orders_submitted,
            orders_rejected: self.orders_rejected,
        }
    }
}

/// The shares of a token.
pub open spec fn inventory_of(p: PositionView, token: TokenSide) -> InventoryView {
    match token {
        TokenSide::Up => p.up,
        TokenSide::Down => p.down,
    }
}

/// A position with other shares of a token.
pub open spec fn with_inventory(p: PositionView, token: TokenSide, i: InventoryView) -> PositionView {
    match token {
        TokenSide::Up => PositionView { up: i, ..p },
        TokenSide::Down => PositionView { down: i, ..p },
    }
}

/// The money, the volume, and the shares that can be sold, after a fill.
#[derive(Clone, Copy, Debug, PartialEq, Eq, Structural)]
pub struct Amounts {
    pub cash: u64,
    pub volume: u64,
    pub sellable: u64,
}

/// A position after a fill: what was bought is locked for a while, what was sold is gone.
pub open spec fn after_fill(p: PositionView, f: Fill, cooldown_ms: u64, a: Amounts) -> PositionView {
    let i = inventory_of(p, f.token);
    let j = match f.side {
        OrderSide::Bid => InventoryView {
            locked: i.locked.push((f.size, (f.ts_ms + cooldown_ms) as i64)),
            ..i
        },
        OrderSide::Ask => InventoryView { sellable: a.sellable, ..i },
    };
    PositionView {
        cash: a.cash,
        total_volume: a.volume,
        fills: p.fills.push(f),
        ..with_inventory(p, f.token, j)
    }
}

impl Position {
    /// A position of money alone.
    pub fn new(capital: u64) -> (p: Position)
        ensures
            p@ == (PositionView {
                cash: capital,
                up: InventoryView { sellable: 0, locked: seq![] },
                down: InventoryView { sellable: 0, locked: seq![] },
                fills: seq![],
                total_volume: 0,
                orders_submitted: 0,
                orders_rejected: 0,
            }),
    {
        let p: Position = Position {
            cash: capital,
            up: TokenInventory::new(),
            down: TokenInventory::new(),
            fills: Vec::new(),
            total_volume: 0,
            orders_submitted: 0,
            orders_rejected: 0,
        };
        assert(p@.fills =~= seq![]);
        p
    }

    /// Splits money into shares of both tokens, which can be sold at once.
    pub fn apply_split(&mut self, cash: u64, up: u64, down: u64)
        ensures
            final(self)@ == (PositionView {
                cash,
                up: InventoryView { sellable: up, ..old(self)@.up },
                down: InventoryView { sellable: down, ..old(self)@.down },
                ..old(self)@
            }),
    {
        self.cash = cash;
        self.up.sellable = up;
        self.down.sellable = down;
    }

    /// Books a fill.
    pub fn apply_fill(&mut self, fill: Fill, cooldown_ms: u64, a: Amounts)
        requires
            cooldown_ms <= order::LONGEST_LATENCY_MS,
            fill.ts_ms + order::LONGEST_LATENCY_MS <= i64::MAX,
        ensures
            final(self)@ == after_fill(old(self)@, fill, cooldown_ms, a),
    {
        match fill.side {
            OrderSide::Bid => match fill.token {
                TokenSide::Up => {
                    self.up.add_from_market(fill.size, fill.ts_ms, cooldown_ms);
                },
                TokenSide::Down => {
                    self.down.add_from_market(fill.size, fill.ts_ms, cooldown_ms);
                },
            },
            OrderSide::Ask => match fill.token {
                TokenSide::Up => {
                    self.up.sellable = a.sellable;
                },
                TokenSide::Down => {
                    self.down.sellable = a.sellable;
                },
            },
        }
        self.cash = a.cash;
        self.total_volume = a.volume;
        self.fills.push(fill);
    }

    /// The shares of a token.
    pub fn inventory(&self, token: TokenSide) -> (i: &TokenInventory)
        ensures
            i@ == inventory_of(self@, token),
    {
        match token {
            TokenSide::Up => &self.up,
            TokenSide::Down => &self.down,
        }
    }

    /// The shares that are paid out at the end: those of the token that won.
    pub fn settle(&self, outcome_up: bool) -> (i: &TokenInventory)
        ensures
            i@ == inventory_of(self@, if outcome_up { TokenSide::Up } else { TokenSide::Down }),
    {
        if outcome_up {
            &self.up
        } else {
            &self.down
        }
    }
}

/// Shares that are bought cannot be sold before the cooldown is over: they are locked until then,
/// and what can be sold stays as it was.
pub proof fn purchases_are_locked(p: PositionView, f: Fill, cooldown_ms: u64, a: Amounts, now_ms: i64)
    requires
        f.side == OrderSide::Bid,
        i64::MIN <= f.ts_ms + cooldown_ms <= i64::MAX,
        now_ms < f.ts_ms + cooldown_ms,
    ensures
        inventory_of(after_fill(p, f, cooldown_ms, a), f.token).sellable == inventory_of(
            p,
            f.token,
        ).sellable,
        released(inventory_of(after_fill(p, f, cooldown_ms, a), f.token).locked, now_ms)
            == released(inventory_of(p, f.token).locked, now_ms),
{
    reveal(Seq::filter);
    let before = inventory_of(p, f.token).locked;
    let lock = (f.size, (f.ts_ms + cooldown_ms) as i64);
    assert(before.push(lock).drop_last() =~= before);
    assert(before.push(lock).last() == lock);
}

/// A fill is booked once, with the money and the volume that were computed for it, and touches the
/// shares of its own token alone: what was bought is locked until the cooldown is over, what was
/// sold is taken from what can be sold.
pub proof fn fills_touch_one_token(p: PositionView, f: Fill, cooldown_ms: u64, a: Amounts)
    requires
        i64::MIN <= f.ts_ms + cooldown_ms <= i64::MAX,
    ensures
        ({
            let q = after_fill(p, f, cooldown_ms, a);
            let (mine, was) = if f.token == TokenSide::Up { (q.up, p.up) } else { (q.down, p.down) };
            &&& q.cash == a.cash && q.total_volume == a.volume && q.fills == p.fills.push(f)
            &&& q.orders_submitted == p.orders_submitted && q.orders_rejected == p.orders_rejected
            &&& f.token == TokenSide::Up ==> q.down == p.down
            &&& f.token == TokenSide::Down ==> q.up == p.up
            &&& f.side == OrderSide::Bid ==> mine.sellable == was.sellable && mine.locked.len()
                == was.locked.len() + 1 && mine.locked.last() == (
                f.size,
                (f.ts_ms + cooldown_ms) as i64,
            ) && mine.locked.drop_last() == was.locked
            &&& f.side == OrderSide::Ask ==> mine.sellable == a.sellable && mine.locked
                == was.locked
        }),
{
    let q = after_fill(p, f, cooldown_ms, a);
    if f.side == OrderSide::Bid {
        if f.token == TokenSide::Up {
            assert(q.up.locked.drop_last() =~= p.up.locked);
        } else {
            assert(q.down.locked.drop_last() =~= p.down.locked);
        }
    }
}

/// Shares are unlocked exactly when their time has come: those that have reached it are released,
/// all others stay locked, and none is lost.
pub proof fn shares_are_released_in_time(locked: Seq<(u64, i64)>, now_ms: i64, l: (u64, i64))
    ensures
        still_locked(locked, now_ms).contains(l) <==> locked.contains(l) && l.1 > now_ms,
        locked.contains(l) && l.1 <= now_ms ==> released(locked, now_ms).contains(l.0),
        released(locked, now_ms).len() + still_locked(locked, now_ms).len() == locked.len(),
{
    broadcast use vstd::seq_lib::group_filter_ensures;

    let late = |l: (u64, i64)| !(l.1 <= now_ms);
    let due = |l: (u64, i64)| l.1 <= now_ms;
    let left = locked.filter(late);
    let free = locked.filter(due);
    if left.contains(l) {
        let i = left.index_of(l);
        assert(late(left[i]));
        order::lemma_filter_is_part(locked, late, i);
    }
    if locked.contains(l) {
        let i = locked.index_of(l);
        if l.1 > now_ms {
            assert(late(locked[i]));
            locked.lemma_filter_contains(late, i);
        } else {
            assert(due(locked[i]));
            locked.lemma_filter_contains(due, i);
            let k = free.index_of(l);
            assert(released(locked, now_ms)[k] == l.0);
        }
    }
    lemma_released_or_locked(locked, now_ms);
}

proof fn lemma_released_or_locked(locked: Seq<(u64, i64)>, now_ms: i64)
    ensures
        released(locked, now_ms).len() + still_locked(locked, now_ms).len() == locked.len(),
    decreases locked.len(),
{
    reveal(Seq::filter);
    if locked.len() > 0 {
        lemma_released_or_locked(locked.drop_last(), now_ms);
    }
}

} // verus!
