//! Position, entry price and realized profit of the fills: which case a fill is, and what follows
//! from it. The sums and products are worked out by whoever reports the fill.
use vstd::prelude::*;
use crate::num::{spec_epsilon, spec_zero, Num};
use crate::types::Side;

verus! {

/// What a fill does to the position.
#[derive(Clone, Copy, Debug, PartialEq, Eq, Structural)]
pub enum FillKind {
    /// It opens a position.
    Open,
    /// It adds to the position.
    Add,
    /// It takes from the position.
    Reduce,
    /// It closes the position.
    Flatten,
    /// It turns the position round.
    Flip,
}

/// A fill's size, negative for a sale.
pub open spec fn signed_size(side: Side, size: Num) -> Num {
    match side {
        Side::Buy => size,
        Side::Sell => size.negated(),
    }
}

/// A fill's size, negative for a sale.
pub fn signed_fill(side: Side, size: Num) -> (r: Num)
    ensures
        r == signed_size(side, size),
{
    match side {
        Side::Buy => size,
        Side::Sell => size.neg(),
    }
}

/// The numbers of a fill, worked out from the position before it and the fill's signed size.
#[derive(Clone, Copy, Debug, PartialEq, Eq, Structural)]
pub struct FillNumbers {
    /// Position times signed fill.
    pub fill_product: Num,
    /// Position plus signed fill.
    pub candidate: Num,
    /// Position times candidate.
    pub candidate_product: Num,
    /// Entry price of the position and the fill together, by size.
    pub blended: Num,
    /// Realized profit with this fill in it.
    pub realized: Num,
    /// Traded value with this fill in it.
    pub volume: Num,
}

/// What a fill does to a position.
pub open spec fn fill_kind(position: Num, n: FillNumbers) -> FillKind {
    if position.absolute().below(spec_epsilon()) {
        FillKind::Open
    } else if spec_zero().below(n.fill_product) {
        FillKind::Add
    } else if n.candidate.absolute().below(spec_epsilon()) {
        FillKind::Flatten
    } else if spec_zero().below(n.candidate_product) {
        FillKind::Reduce
    } else {
        FillKind::Flip
    }
}

/// The part of a fill that closes something.
#[derive(Clone, Copy, Debug, PartialEq, Eq, Structural)]
pub enum ClosingLeg {
    /// Nothing is closed.
    Nothing,
    /// A long position is sold: profit is the price above the entry price.
    Long,
    /// A short position is bought back: profit is the price below the entry price.
    Short,
}

/// The part of a fill that closes something.
pub open spec fn closing_leg(position: Num, side: Side, kind: FillKind) -> ClosingLeg {
    if kind == FillKind::Open || kind == FillKind::Add {
        ClosingLeg::Nothing
    } else if spec_zero().below(position) && side == Side::Sell {
        ClosingLeg::Long
    } else if position.below(spec_zero()) && side == Side::Buy {
        ClosingLeg::Short
    } else {
        ClosingLeg::Nothing
    }
}

/// What the account knows of its fills.
pub struct Fills {
    pub maker_fee_rate: Num,
    pub position: Num,
    pub entry_vwap: Num,
    pub realized: Num,
    pub fill_count: u64,
    pub volume: Num,
}

/// Position and entry price after a fill.
pub open spec fn position_after(
    s: Fills,
    side: Side,
    price: Num,
    size: Num,
    n: FillNumbers,
) -> (Num, Num) {
    match fill_kind(s.position, n) {
        FillKind::Open => (
            signed_size(side, size),
            if spec_epsilon().at_most(size.absolute()) {
                price
            } else {
                spec_zero()
            },
        ),
        FillKind::Add => (n.candidate, n.blended),
        FillKind::Flatten => (spec_zero(), spec_zero()),
        FillKind::Reduce => (n.candidate, s.entry_vwap),
        FillKind::Flip => (n.candidate, price),
    }
}

/// The account after a fill.
pub open spec fn after_fill(s: Fills, side: Side, price: Num, size: Num, n: FillNumbers) -> Fills {
    Fills {
        position: position_after(s, side, price, size, n).0,
        entry_vwap: position_after(s, side, price, size, n).1,
        realized: n.realized,
        fill_count: up(s.fill_count),
        volume: n.volume,
        ..s
    }
}

/// A counter, one higher where that fits.
pub open spec fn up(n: u64) -> u64 {
    if n == u64::MAX {
        n
    } else {
        (n + 1) as u64
    }
}

/// Local account of the fills.
#[derive(Clone, Copy, Debug)]
pub struct FillAccounting {
    maker_fee_rate: Num,
    position_size: Num,
    entry_vwap: Num,
    realized_pnl_cumulative: Num,
    fill_count: u64,
    volume_usd: Num,
}

impl View for FillAccounting {
    type V = Fills;

    closed spec fn view(&self) -> Fills {
        Fills {
            maker_fee_rate: self.maker_fee_rate,
            position: self.position_size,
            entry_vwap: self.entry_vwap,
            realized: self.realized_pnl_cumulative,
            fill_count: self.fill_count,
            volume: self.volume_usd,
        }
    }
}

impl FillAccounting {
    /// No fills yet.
    pub fn new(maker_fee_rate: Num) -> (r: FillAccounting)
        ensures
            r@ == (Fills {
                maker_fee_rate,
                position: spec_zero(),
                entry_vwap: spec_zero(),
                realized: spec_zero(),
                fill_count: 0,
                volume: spec_zero(),
            }),
    {
        FillAccounting {
            maker_fee_rate,
            position_size: Num::zero(),
            entry_vwap: Num::zero(),
            realized_pnl_cumulative: Num::zero(),
            fill_count: 0,
            volume_usd: Num::zero(),
        }
    }

    /// An account that starts from a known position, with its counters at zero.
    pub fn from_snapshot(maker_fee_rate: Num, position: Num, vwap: Num, realized_cum: Num) -> (r:
        FillAccounting)
        ensures
            r@ == (Fills {
                maker_fee_rate,
                position,
                entry_vwap: vwap,
                realized: realized_cum,
                fill_count: 0,
                volume: spec_zero(),
            }),
    {
        FillAccounting {
            maker_fee_rate,
            position_size: position,
            entry_vwap: vwap,
            realized_pnl_cumulative: realized_cum,
            fill_count: 0,
            volume_usd: Num::zero(),
        }
    }

    /// What a fill does to the position.
    pub fn classify(&self, n: &FillNumbers) -> (r: FillKind)
        ensures
            r == fill_kind(self@.position, *n),
    {
        if self.position_size.abs().lt(Num::epsilon()) {
            FillKind::Open
        } else if n.fill_product.is_positive() {
            FillKind::Add
        } else if n.candidate.abs().lt(Num::epsilon()) {
            FillKind::Flatten
        } else if n.candidate_product.is_positive() {
            FillKind::Reduce
        } else {
            FillKind::Flip
        }
    }

    /// The part of a fill that closes something.
    pub fn closing_leg(&self, side: Side, kind: FillKind) -> (r: ClosingLeg)
        ensures
            r == closing_leg(self@.position, side, kind),
    {
        match kind {
            FillKind::Open => ClosingLeg::Nothing,
            FillKind::Add => ClosingLeg::Nothing,
            _ => if self.position_size.is_positive() && side == Side::Sell {
                ClosingLeg::Long
            } else if self.position_size.lt(Num::zero()) && side == Side::Buy {
                ClosingLeg::Short
            } else {
                ClosingLeg::Nothing
            },
        }
    }

    /// Takes a fill: its side, price and size, and the numbers worked out for it.
    pub fn apply(&mut self, side: Side, price: Num, size: Num, n: FillNumbers) -> (r: FillKind)
        ensures
            r == fill_kind(old(self)@.position, n),
            final(self)@ == after_fill(old(self)@, side, price, size, n),
    {
        let kind: FillKind = self.classify(&n);
        let (position, vwap): (Num, Num) = match kind {
            FillKind::Open => (
                signed_fill(side, size),
                if Num::epsilon().le(size.abs()) {
                    price
                } else {
                    Num::zero()
                },
            ),
            FillKind::Add => (n.candidate, n.blended),
            FillKind::Flatten => (Num::zero(), Num::zero()),
            FillKind::Reduce => (n.candidate, self.entry_vwap),
            FillKind::Flip => (n.candidate, price),
        };
        self.position_size = position;
        self.entry_vwap = vwap;
        self.realized_pnl_cumulative = n.realized;
        self.fill_count = self.fill_count.saturating_add(1);
        self.volume_usd = n.volume;
        kind
    }

    /// The maker fee rate.
    pub fn maker_fee_rate(&self) -> (r: Num)
        ensures
            r == self@.maker_fee_rate,
    {
        self.maker_fee_rate
    }

    /// Position, negative when short.
    pub fn position_size(&self) -> (r: Num)
        ensures
            r == self@.position,
    {
        self.position_size
    }

    /// Entry price; zero when flat.
    pub fn entry_vwap(&self) -> (r: Num)
        ensures
            r == self@.entry_vwap,
    {
        self.entry_vwap
    }

    /// Realized profit, fees taken off.
    pub fn realized_pnl_cumulative(&self) -> (r: Num)
        ensures
            r == self@.realized,
    {
        self.realized_pnl_cumulative
    }

    /// Fills taken.
    pub fn fill_count(&self) -> (r: u64)
        ensures
            r == self@.fill_count,
    {
        self.fill_count
    }

    /// Traded value.
    pub fn volume_usd(&self) -> (r: Num)
        ensures
            r == self@.volume,
    {
        self.volume_usd
    }

    /// What of the account survives a restart.
    pub fn snapshot(&self) -> (r: FillSnapshot)
        ensures
            r.position_size == self@.position,
            r.entry_vwap == self@.entry_vwap,
            r.realized_pnl_cumulative == self@.realized,
    {
        FillSnapshot {
            position_size: self.position_size,
            entry_vwap: self.entry_vwap,
            realized_pnl_cumulative: self.realized_pnl_cumulative,
        }
    }
}

/// What of the account survives a restart.
#[derive(Clone, Copy, Debug, PartialEq, Eq, Structural)]
pub struct FillSnapshot {
    pub position_size: Num,
    pub entry_vwap: Num,
    pub realized_pnl_cumulative: Num,
}

/// Adding to a position, or opening one, closes nothing.
pub proof fn only_closing_fills_close(position: Num, side: Side, n: FillNumbers)
    requires
        closing_leg(position, side, fill_kind(position, n)) != ClosingLeg::Nothing,
    ensures
        !position.absolute().below(spec_epsilon()),
        !spec_zero().below(n.fill_product),
{
}

/// A fill on a flat account opens a position of its size, long for a purchase and short for a sale.
pub proof fn first_fill_opens_the_position(
    s: Fills,
    side: Side,
    price: Num,
    size: Num,
    n: FillNumbers,
)
    requires
        s.position.absolute().below(spec_epsilon()),
        spec_epsilon().at_most(size),
    ensures
        ({
            let t = after_fill(s, side, price, size, n);
            &&& t.entry_vwap == price
            &&& side == Side::Buy ==> t.position == size && spec_zero().below(t.position)
            &&& side == Side::Sell ==> t.position == size.negated() && t.position.below(spec_zero())
        }),
{
}

/// What a fill does to the position, case by case. On a flat account it opens a position of its own
/// size, at its price where the size is worth counting. In the position's direction it adds to it, at
/// the price of both together. Against it, it closes the position where nothing worth counting
/// remains; it takes from it, at the old entry price, where the rest is on the same side; and it turns
/// it round, at the fill's price, where the rest is on the other. Profit and traded value are the ones
/// worked out, one more fill is counted, and the fee rate stays.
pub proof fn fills_move_the_position(
    s: Fills,
    side: Side,
    price: Num,
    size: Num,
    n: FillNumbers,
)
    ensures
        ({
            let t = after_fill(s, side, price, size, n);
            let flat = s.position.absolute().below(spec_epsilon());
            let with = spec_zero().below(n.fill_product);
            let closed = n.candidate.absolute().below(spec_epsilon());
            let same = spec_zero().below(n.candidate_product);
            &&& flat && side == Side::Buy ==> t.position == size
            &&& flat && side == Side::Sell ==> t.position == size.negated()
            &&& flat && spec_epsilon().at_most(size.absolute()) ==> t.entry_vwap == price
            &&& flat && !spec_epsilon().at_most(size.absolute()) ==> t.entry_vwap == spec_zero()
            &&& !flat && with ==> t.position == n.candidate && t.entry_vwap == n.blended
            &&& !flat && !with && closed ==> t.position == spec_zero() && t.entry_vwap
                == spec_zero()
            &&& !flat && !with && !closed && same ==> t.position == n.candidate && t.entry_vwap
                == s.entry_vwap
            &&& !flat && !with && !closed && !same ==> t.position == n.candidate && t.entry_vwap
                == price
            &&& t.realized == n.realized && t.volume == n.volume
            &&& s.fill_count < u64::MAX ==> t.fill_count == s.fill_count + 1
            &&& s.fill_count == u64::MAX ==> t.fill_count == u64::MAX
            &&& t.maker_fee_rate == s.maker_fee_rate
        }),
{
}

/// A fill closes something exactly where it goes against the position: a sale out of a long one, a
/// purchase out of a short one.
pub proof fn closing_goes_against_the_position(position: Num, side: Side, n: FillNumbers)
    ensures
        ({
            let against = !position.absolute().below(spec_epsilon()) && !spec_zero().below(
                n.fill_product,
            );
            let leg = closing_leg(position, side, fill_kind(position, n));
            &&& leg == ClosingLeg::Long <==> against && side == Side::Sell && spec_zero().below(
                position,
            )
            &&& leg == ClosingLeg::Short <==> against && side == Side::Buy && position.below(
                spec_zero(),
            )
        }),
{
}

} // verus!
