//! Quote ladder: which sides and levels are quoted, and at which of the prices worked out for them.
use vstd::prelude::*;
use crate::num::{spec_epsilon, spec_zero, Num};
use crate::types::Side;

verus! {

/// The pattern of 1.0001: a spread multiplier up to it changes nothing.
pub const NEUTRAL_MULTIPLIER_BITS: u64 = 0x3FF0_0068_DB8B_AC71;

/// Whether a position is large enough to count.
pub open spec fn holding(position: Num) -> bool {
    spec_epsilon().at_most(position.absolute())
}

/// Whether a position is large enough to count.
pub fn holds_inventory(position: Num) -> (r: bool)
    ensures
        r == holding(position),
{
    Num::epsilon().le(position.abs())
}

/// Which quotes to make.
#[derive(Clone, Copy, Debug, PartialEq, Eq, Structural)]
pub enum LadderPlan {
    /// None at all.
    Nothing,
    /// One passive quote that brings the position closer to zero.
    ReduceOnly,
    /// A ladder, on either side or on both.
    Ladder { bids: bool, asks: bool },
}

/// Whether the value of a position has reached its limit.
pub open spec fn limit_reached(value: Num, max_pos_usd: Num) -> bool {
    max_pos_usd.at_most(value)
}

/// Which quotes to make: without a quote of the engine, or without room for a position, only a
/// position is reduced; at the position limit the side that would add to it is left out.
pub open spec fn ladder_plan(
    has_quote: bool,
    position: Num,
    max_pos_usd: Num,
    value: Num,
) -> LadderPlan {
    let at_limit = limit_reached(value, max_pos_usd);
    if !has_quote || max_pos_usd.at_most(spec_zero()) {
        if holding(position) {
            LadderPlan::ReduceOnly
        } else {
            LadderPlan::Nothing
        }
    } else {
        LadderPlan::Ladder {
            bids: !(at_limit && spec_zero().below(position)),
            asks: !(at_limit && position.below(spec_zero())),
        }
    }
}

/// Which quotes to make. `value` is that of the position at the mid price.
pub fn plan_ladder(has_quote: bool, position: Num, max_pos_usd: Num, value: Num) -> (r: LadderPlan)
    ensures
        r == ladder_plan(has_quote, position, max_pos_usd, value),
{
    let at_limit: bool = max_pos_usd.le(value);
    if !has_quote || max_pos_usd.le(Num::zero()) {
        if holds_inventory(position) {
            LadderPlan::ReduceOnly
        } else {
            LadderPlan::Nothing
        }
    } else {
        LadderPlan::Ladder {
            bids: !(at_limit && position.is_positive()),
            asks: !(at_limit && position.lt(Num::zero())),
        }
    }
}

/// One quote level: bid and ask, each where it is quoted.
pub open spec fn masked(price: Num, quoted: bool) -> Option<Num> {
    if quoted {
        Some(price)
    } else {
        None
    }
}

/// A price where it is quoted.
fn mask(price: Num, quoted: bool) -> (r: Option<Num>)
    ensures
        r == masked(price, quoted),
{
    if quoted {
        Some(price)
    } else {
        None
    }
}

/// Levels without a quote.
pub open spec fn no_levels(n: nat) -> Seq<(Option<Num>, Option<Num>)> {
    Seq::new(n, |i: int| (None::<Num>, None::<Num>))
}

/// Levels without a quote.
fn empty_levels(n: usize) -> (r: Vec<(Option<Num>, Option<Num>)>)
    ensures
        r@ == no_levels(n as nat),
{
    let mut levels: Vec<(Option<Num>, Option<Num>)> = Vec::new();
    while levels.len() < n
        invariant
            levels@.len() <= n,
            forall|i: int| 0 <= i < levels@.len() ==> #[trigger] levels@[i] == (None::<Num>, None::<Num>),
        decreases n - levels@.len(),
    {
        levels.push((None, None));
    }
    proof {
        assert(levels@ =~= no_levels(n as nat));
    }
    levels
}

/// The side that brings a position closer to zero, where there is a position and a price.
pub open spec fn exit_side(position: Num, mid: Num) -> Option<Side> {
    if position.absolute().below(spec_epsilon()) || mid.at_most(spec_zero()) {
        None
    } else if spec_zero().below(position) {
        Some(Side::Sell)
    } else {
        Some(Side::Buy)
    }
}

/// The side that brings a position closer to zero, where there is a position and a price.
pub fn reducing_side(position: Num, mid: Num) -> (r: Option<Side>)
    ensures
        r == exit_side(position, mid),
{
    if position.abs().lt(Num::epsilon()) || mid.le(Num::zero()) {
        None
    } else if position.is_positive() {
        Some(Side::Sell)
    } else {
        Some(Side::Buy)
    }
}

/// A ladder whose only quote is one on the first level that reduces the position.
pub open spec fn reduce_only_levels(
    position: Num,
    mid: Num,
    price: Num,
    n: nat,
) -> Seq<(Option<Num>, Option<Num>)> {
    match exit_side(position, mid) {
        None => no_levels(n),
        Some(Side::Sell) => no_levels(n).update(0, (None, Some(price))),
        Some(Side::Buy) => no_levels(n).update(0, (Some(price), None)),
    }
}

/// A ladder whose only quote is one on the first level that reduces the position, at the given
/// price.
pub fn fallback_reduce_only(mid: Num, position: Num, price: Num, num_levels: usize) -> (r: Vec<
    (Option<Num>, Option<Num>),
>)
    requires
        exit_side(position, mid) is Some ==> num_levels > 0,
    ensures
        r@ == reduce_only_levels(position, mid, price, num_levels as nat),
{
    let mut levels: Vec<(Option<Num>, Option<Num>)> = empty_levels(num_levels);
    match reducing_side(position, mid) {
        None => {},
        Some(Side::Sell) => {
            levels.set(0, (None, Some(price)));
        },
        Some(Side::Buy) => {
            levels.set(0, (Some(price), None));
        },
    }
    levels
}

/// The prices of the ladder's levels: the engine's quote, then the rungs below and above it.
pub open spec fn rung(l0: (Num, Num), rungs: Seq<(Num, Num)>, i: int) -> (Num, Num) {
    if i == 0 {
        l0
    } else {
        rungs[i - 1]
    }
}

/// The ladder of a plan.
pub open spec fn planned_levels(
    plan: LadderPlan,
    l0: (Num, Num),
    rungs: Seq<(Num, Num)>,
    position: Num,
    mid: Num,
    fallback: Num,
    n: nat,
) -> Seq<(Option<Num>, Option<Num>)> {
    match plan {
        LadderPlan::Nothing => no_levels(n),
        LadderPlan::ReduceOnly => reduce_only_levels(position, mid, fallback, n),
        LadderPlan::Ladder { bids, asks } => Seq::new(
            rungs.len() + 1,
            |i: int|
                (
                    masked(rung(l0, rungs, i).0, bids),
                    masked(rung(l0, rungs, i).1, asks),
                ),
        ),
    }
}

/// The quote ladder. `l0` is the engine's quote, `rungs` are the prices worked out for the
/// further levels, `value` is that of the position at the mid price, and `fallback` the price of a
/// quote that only reduces the position.
pub fn build_quote_levels(
    l0: Option<(Num, Num)>,
    rungs: &Vec<(Num, Num)>,
    mid: Num,
    position: Num,
    max_pos_usd: Num,
    value: Num,
    fallback: Num,
    num_levels: usize,
) -> (r: Vec<(Option<Num>, Option<Num>)>)
    requires
        num_levels > 0,
        l0 is Some ==> rungs@.len() + 1 == num_levels,
    ensures
        r@.len() == num_levels,
        r@ == planned_levels(
            ladder_plan(l0 is Some, position, max_pos_usd, value),
            l0->0,
            rungs@,
            position,
            mid,
            fallback,
            num_levels as nat,
        ),
{
    match plan_ladder(l0.is_some(), position, max_pos_usd, value) {
        LadderPlan::Nothing => empty_levels(num_levels),
        LadderPlan::ReduceOnly => fallback_reduce_only(mid, position, fallback, num_levels),
        LadderPlan::Ladder { bids, asks } => {
            let first: (Num, Num) = l0.unwrap();
            let mut levels: Vec<(Option<Num>, Option<Num>)> = Vec::new();
            levels.push((mask(first.0, bids), mask(first.1, asks)));
            let mut i: usize = 0;
            while i < rungs.len()
                invariant
                    i <= rungs@.len(),
                    levels@.len() == i + 1,
                    forall|k: int|
                        0 <= k <= i ==> #[trigger] levels@[k] == (
                            masked(rung(first, rungs@, k).0, bids),
                            masked(rung(first, rungs@, k).1, asks),
                        ),
                decreases rungs@.len() - i,
            {
                levels.push((mask(rungs[i].0, bids), mask(rungs[i].1, asks)));
                i = i + 1;
            }
            proof {
                let want = planned_levels(
                    LadderPlan::Ladder { bids, asks },
                    first,
                    rungs@,
                    position,
                    mid,
                    fallback,
                    num_levels as nat,
                );
                assert(levels@ =~= want);
            }
            levels
        },
    }
}

/// Whether quotes are widened for the quality of the fills.
pub open spec fn widens(multiplier: Num, mid: Num) -> bool {
    !(multiplier.at_most(Num { bits: NEUTRAL_MULTIPLIER_BITS }) || mid.at_most(spec_zero()))
}

/// Whether a spread multiplier widens the quotes.
pub fn quality_widens(multiplier: Num, mid: Num) -> (r: bool)
    ensures
        r == !(multiplier.at_most(Num { bits: NEUTRAL_MULTIPLIER_BITS }) || mid.at_most(
            spec_zero(),
        )),
        r == widens(multiplier, mid),
{
    !(multiplier.le(Num::new(NEUTRAL_MULTIPLIER_BITS)) || mid.le(Num::zero()))
}

/// Whether the ladder leans towards reducing the position at all.
pub open spec fn leans(
    enabled: bool,
    mid: Num,
    position: Num,
    max_pos_usd: Num,
    ratio: Num,
    min_ratio: Num,
) -> bool {
    &&& enabled
    &&& !mid.at_most(spec_zero())
    &&& !max_pos_usd.at_most(spec_zero())
    &&& !position.absolute().below(spec_epsilon())
    &&& !ratio.below(min_ratio)
}

/// Whether the ladder leans towards reducing the position at all. `ratio` is the position's value
/// as a part of its limit.
pub fn exit_bias_applies(
    enabled: bool,
    mid: Num,
    position: Num,
    max_pos_usd: Num,
    ratio: Num,
    min_ratio: Num,
) -> (r: bool)
    ensures
        r == leans(enabled, mid, position, max_pos_usd, ratio, min_ratio),
{
    enabled && !mid.le(Num::zero()) && !max_pos_usd.le(Num::zero()) && !position.abs().lt(
        Num::epsilon(),
    ) && !ratio.lt(min_ratio)
}

/// Whether quotes of a side take from the position.
pub open spec fn tightens(side: Side, position: Num) -> bool {
    match side {
        Side::Buy => position.below(spec_zero()),
        Side::Sell => spec_zero().below(position),
    }
}

/// Whether the quotes of a side are drawn closer (the side reduces the position) rather than
/// pushed away.
pub fn exit_bias_tightens(side: Side, position: Num) -> (r: bool)
    ensures
        r == match side {
            Side::Buy => position.below(spec_zero()),
            Side::Sell => spec_zero().below(position),
        },
        r == tightens(side, position),
{
    match side {
        Side::Buy => position.lt(Num::zero()),
        Side::Sell => position.is_positive(),
    }
}

/// A price that does not reach the mid price, or another one in its place.
pub open spec fn passive(side: Side, price: Num, mid: Num, otherwise: Num) -> Num {
    match side {
        Side::Buy => if mid.at_most(price) {
            otherwise
        } else {
            price
        },
        Side::Sell => if price.at_most(mid) {
            otherwise
        } else {
            price
        },
    }
}

/// A price that stays on its side of the mid: another one where it does not.
pub fn keep_passive(side: Side, price: Num, mid: Num, otherwise: Num) -> (r: Num)
    ensures
        r == match side {
            Side::Buy => if mid.at_most(price) {
                otherwise
            } else {
                price
            },
            Side::Sell => if price.at_most(mid) {
                otherwise
            } else {
                price
            },
        },
        r == passive(side, price, mid, otherwise),
{
    match side {
        Side::Buy => if mid.le(price) {
            otherwise
        } else {
            price
        },
        Side::Sell => if price.le(mid) {
            otherwise
        } else {
            price
        },
    }
}

/// At the position limit no quote adds to the position: the ladder has no bid while long, no ask
/// while short.
pub proof fn limit_stops_adding(
    has_quote: bool,
    l0: (Num, Num),
    rungs: Seq<(Num, Num)>,
    position: Num,
    max_pos_usd: Num,
    value: Num,
    mid: Num,
    fallback: Num,
    n: nat,
    i: int,
)
    requires
        n > 0,
        limit_reached(value, max_pos_usd),
        0 <= i < planned_levels(
            ladder_plan(has_quote, position, max_pos_usd, value),
            l0,
            rungs,
            position,
            mid,
            fallback,
            n,
        ).len(),
    ensures
        ({
            let level = planned_levels(
                ladder_plan(has_quote, position, max_pos_usd, value),
                l0,
                rungs,
                position,
                mid,
                fallback,
                n,
            )[i];
            &&& spec_zero().below(position) ==> level.0 is None
            &&& position.below(spec_zero()) ==> level.1 is None
        }),
{
}

/// Without a position and without a quote of the engine nothing is quoted.
pub proof fn flat_and_unready_quotes_nothing(
    l0: (Num, Num),
    rungs: Seq<(Num, Num)>,
    position: Num,
    max_pos_usd: Num,
    value: Num,
    mid: Num,
    fallback: Num,
    n: nat,
)
    requires
        position.absolute().below(spec_epsilon()),
    ensures
        planned_levels(
            ladder_plan(false, position, max_pos_usd, value),
            l0,
            rungs,
            position,
            mid,
            fallback,
            n,
        ) == no_levels(n),
{
}

/// Which quotes are made. With a quote of the engine and room for a position, a ladder: of its bids
/// unless the limit is reached while long, and of its asks unless it is reached while short. Without
/// either, a position that counts is reduced, and without one nothing is quoted.
pub proof fn ladders_keep_to_the_limit(
    has_quote: bool,
    position: Num,
    max_pos_usd: Num,
    value: Num,
)
    requires
        !position.nan() && !max_pos_usd.nan() && !value.nan(),
    ensures
        ({
            let r = ladder_plan(has_quote, position, max_pos_usd, value);
            let room = has_quote && max_pos_usd.rank() > 0;
            let reached = max_pos_usd.rank() <= value.rank();
            let holds = spec_epsilon().rank() <= position.magnitude();
            &&& room ==> r == (LadderPlan::Ladder {
                bids: !(reached && position.rank() > 0),
                asks: !(reached && position.rank() < 0),
            })
            &&& !room && holds ==> r == LadderPlan::ReduceOnly
            &&& !room && !holds ==> r == LadderPlan::Nothing
        }),
{
}

/// What a plan quotes, level by level. A ladder quotes, of the sides that it has, the engine's prices
/// on the first level and those of the further levels in order, each bid with its ask. A plan that
/// only reduces quotes one price on the first level: an ask out of a long position, a bid out of a
/// short one, and nothing without a mid price. Nothing else is quoted.
pub proof fn plans_quote_their_prices(
    plan: LadderPlan,
    l0: (Num, Num),
    rungs: Seq<(Num, Num)>,
    position: Num,
    mid: Num,
    fallback: Num,
    n: nat,
    i: int,
)
    requires
        n > 0,
        !position.nan() && !mid.nan(),
        0 <= i < planned_levels(plan, l0, rungs, position, mid, fallback, n).len(),
    ensures
        ({
            let r = planned_levels(plan, l0, rungs, position, mid, fallback, n);
            let counts = spec_epsilon().rank() <= position.magnitude() && mid.rank() > 0;
            &&& plan is Ladder ==> r.len() == rungs.len() + 1
            &&& !(plan is Ladder) ==> r.len() == n
            &&& plan matches LadderPlan::Ladder { bids, asks } ==> {
                &&& bids && i == 0 ==> r[i].0 == Some(l0.0)
                &&& asks && i == 0 ==> r[i].1 == Some(l0.1)
                &&& bids && i > 0 ==> r[i].0 == Some(rungs[i - 1].0)
                &&& asks && i > 0 ==> r[i].1 == Some(rungs[i - 1].1)
                &&& !bids ==> r[i].0 is None
                &&& !asks ==> r[i].1 is None
            }
            &&& plan == LadderPlan::Nothing ==> r[i].0 is None && r[i].1 is None
            &&& plan == LadderPlan::ReduceOnly ==> {
                &&& i == 0 && counts && position.rank() > 0 ==> r[i].1 == Some(fallback) && r[i].0
                    is None
                &&& i == 0 && counts && position.rank() < 0 ==> r[i].0 == Some(fallback) && r[i].1
                    is None
                &&& i > 0 || !counts ==> r[i].0 is None && r[i].1 is None
            }
        }),
{
}

/// The side that reduces a position is the ask while long and the bid while short; there is one
/// exactly where the position counts and there is a mid price.
pub proof fn exits_are_against_the_position(position: Num, mid: Num)
    requires
        !position.nan() && !mid.nan(),
    ensures
        ({
            let counts = spec_epsilon().rank() <= position.magnitude() && mid.rank() > 0;
            &&& exit_side(position, mid) is Some <==> counts
            &&& counts && position.rank() > 0 ==> exit_side(position, mid) == Some(Side::Sell)
            &&& counts && position.rank() < 0 ==> exit_side(position, mid) == Some(Side::Buy)
            &&& holding(position) <==> spec_epsilon().rank() <= position.magnitude()
        }),
{
}

/// The ladder leans towards reducing the position exactly where that is switched on, the position
/// counts, there is a mid price and a limit, and the position is at least the least part of it.
pub proof fn leaning_needs_a_position(
    enabled: bool,
    mid: Num,
    position: Num,
    max_pos_usd: Num,
    ratio: Num,
    min_ratio: Num,
)
    requires
        !mid.nan() && !position.nan() && !max_pos_usd.nan() && !ratio.nan() && !min_ratio.nan(),
    ensures
        leans(enabled, mid, position, max_pos_usd, ratio, min_ratio) <==> enabled && mid.rank() > 0
            && max_pos_usd.rank() > 0 && spec_epsilon().rank() <= position.magnitude()
            && min_ratio.rank() <= ratio.rank(),
{
}

/// A bid stays below the mid price and an ask above it: where one would reach it, the other price
/// takes its place, and where neither does, no price changes.
pub proof fn passive_prices_keep_their_side(side: Side, price: Num, mid: Num, otherwise: Num)
    requires
        !price.nan(),
        !mid.nan(),
        side == Side::Buy ==> otherwise.below(mid),
        side == Side::Sell ==> mid.below(otherwise),
    ensures
        side == Side::Buy ==> passive(side, price, mid, otherwise).below(mid),
        side == Side::Sell ==> mid.below(passive(side, price, mid, otherwise)),
        side == Side::Buy && price.below(mid) ==> passive(side, price, mid, otherwise) == price,
        side == Side::Sell && mid.below(price) ==> passive(side, price, mid, otherwise) == price,
        side == Side::Buy && mid.at_most(price) ==> passive(side, price, mid, otherwise)
            == otherwise,
        side == Side::Sell && price.at_most(mid) ==> passive(side, price, mid, otherwise)
            == otherwise,
{
}

/// A purchase takes from a short position and a sale from a long one; nothing takes from none. Quotes
/// are widened exactly where the multiplier lies above one, the tolerance aside, and there is a price.
pub proof fn exits_and_widening(position: Num, multiplier: Num, mid: Num)
    ensures
        tightens(Side::Buy, position) <==> position.below(spec_zero()),
        tightens(Side::Sell, position) <==> spec_zero().below(position),
        !(tightens(Side::Buy, position) && tightens(Side::Sell, position)),
        !multiplier.nan() && !mid.nan() ==> (widens(multiplier, mid) <==> (Num {
            bits: 0x3FF0_0068_DB8B_AC71,
        }).below(multiplier) && spec_zero().below(mid)),
{
}

} // verus!
