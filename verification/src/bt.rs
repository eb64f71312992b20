//! Backtest: book model, fill costs, settlement and the decisions of one replay step.
//!
//! A replay hands in the books of both venues, and the doubles that follow from the
//! spread samples. Entries and exits fill at once at the mids; crossing the books, missed
//! resting orders and fees are charged when a trade is settled.
use crate::decimal;
use crate::decimal::{Decimal, OutOfRange};
use crate::double::Double;
use crate::live_pnl;
use crate::maker;
use crate::signal;
use crate::signal::{Decision, ExitReason, SignalConfig, SignalEngine, SignalMode, SpreadDirection};
use crate::spread;
use crate::spread::SpreadConfig;
use crate::state;
use crate::state::{Event, Phase, PositionMachine, TransitionError};
use crate::time;
use vstd::prelude::*;
use vstd::string::*;

verus! {

/// Widest full spread, in basis points of the mid, of a book that counts as real.
pub const MAX_TRADABLE_FULL_SPREAD_BPS: i64 = 50i64;

/// Top of book at one moment.
#[derive(Clone, Copy, Debug)]
pub struct BookSnapshot {
    pub mid: Decimal,
    pub bid_price: Decimal,
    pub ask_price: Decimal,
    pub bid_size: Decimal,
    pub ask_size: Decimal,
}

/// Which side of the touch a crossing order takes.
#[derive(Clone, Copy, Debug, PartialEq, Eq, Structural)]
pub enum IocSide {
    /// Crosses the ask.
    Buy,
    /// Crosses the bid.
    Sell,
}

pub open spec fn reversed(s: IocSide) -> IocSide {
    match s {
        IocSide::Buy => IocSide::Sell,
        IocSide::Sell => IocSide::Buy,
    }
}

/// The sides of the Extended and the Lighter leg at entry.
pub open spec fn sides_at_entry(direction: SpreadDirection) -> (IocSide, IocSide) {
    match direction {
        SpreadDirection::Long => (IocSide::Buy, IocSide::Sell),
        SpreadDirection::Short => (IocSide::Sell, IocSide::Buy),
    }
}

/// The sides at exit: the reverse.
pub open spec fn sides_at_exit(direction: SpreadDirection) -> (IocSide, IocSide) {
    let e = sides_at_entry(direction);
    (reversed(e.0), reversed(e.1))
}

pub fn entry_sides(direction: SpreadDirection) -> (s: (IocSide, IocSide))
    ensures
        s == sides_at_entry(direction),
{
    match direction {
        SpreadDirection::Long => (IocSide::Buy, IocSide::Sell),
        SpreadDirection::Short => (IocSide::Sell, IocSide::Buy),
    }
}

pub fn exit_sides(direction: SpreadDirection) -> (s: (IocSide, IocSide))
    ensures
        s == sides_at_exit(direction),
{
    let (ext, lt) = entry_sides(direction);
    (
        match ext {
            IocSide::Buy => IocSide::Sell,
            IocSide::Sell => IocSide::Buy,
        },
        match lt {
            IocSide::Buy => IocSide::Sell,
            IocSide::Sell => IocSide::Buy,
        },
    )
}

/// Each leg is closed on the other side than it was opened, and the two legs are always on
/// different sides.
pub proof fn law_exit_sides_reverse_entry_sides(direction: SpreadDirection)
    ensures
        sides_at_exit(direction).0 == reversed(sides_at_entry(direction).0),
        sides_at_exit(direction).1 == reversed(sides_at_entry(direction).1),
        sides_at_entry(direction).0 == reversed(sides_at_entry(direction).1),
{
}

/// Prices, sizes and the mid are all above zero.
pub open spec fn two_sided(b: BookSnapshot) -> bool {
    b.bid_price@ > 0 && b.ask_price@ > 0 && b.bid_size@ > 0 && b.ask_size@ > 0 && b.mid@ > 0
}

/// The full spread in basis points of the mid.
pub open spec fn full_spread_bps(b: BookSnapshot) -> Option<Decimal> {
    decimal::opt_product(
        decimal::opt_quotient(decimal::difference_of(b.ask_price, b.bid_price), Some(b.mid)),
        Some(Decimal::of(10_000, 0)),
    )
}

/// A book can be traded against: both sides are there, the ask is above the bid, and the
/// spread is no wider than a real one.
pub open spec fn tradable_book(b: BookSnapshot) -> Result<bool, OutOfRange> {
    if !two_sided(b) {
        Ok(false)
    } else {
        match decimal::difference_of(b.ask_price, b.bid_price) {
            None => Err(OutOfRange),
            Some(width) => if width@ <= 0 {
                Ok(false)
            } else {
                match full_spread_bps(b) {
                    None => Err(OutOfRange),
                    Some(bps) => Ok(bps@ <= Decimal::of(50, 0)@),
                }
            },
        }
    }
}

/// The price and the size that a crossing order meets first.
pub open spec fn touch(b: BookSnapshot, side: IocSide) -> (Decimal, Decimal) {
    match side {
        IocSide::Buy => (b.ask_price, b.ask_size),
        IocSide::Sell => (b.bid_price, b.bid_size),
    }
}

/// The whole multiples in `times`, given in units of `10^-28`, beyond the first. They are
/// counted on the decimal: a multiple just below three counts as two, also where the nearest
/// double is three.
pub open spec fn beyond_first(times: int) -> int {
    let whole = times / decimal::one_unit();
    if whole <= 1 {
        0
    } else {
        whole - 1
    }
}

/// The penalty for `times` the size at the touch: one basis point for each whole multiple
/// beyond the first.
pub open spec fn overflow_penalty(times: int) -> Decimal {
    Decimal::of(beyond_first(times), 4)
}

/// One, moved against the order by the penalty.
pub open spec fn penalty_factor(side: IocSide, penalty: Decimal) -> Option<Decimal> {
    match side {
        IocSide::Buy => decimal::sum_of(Decimal::of(1, 0), penalty),
        IocSide::Sell => decimal::difference_of(Decimal::of(1, 0), penalty),
    }
}

/// The price of the touch, moved against the order by the penalty.
pub open spec fn worsened(price: Decimal, side: IocSide, penalty: Decimal) -> Option<Decimal> {
    decimal::opt_product(Some(price), penalty_factor(side, penalty))
}

/// The price at which a crossing order fills, `None` on a book that cannot be traded
/// against or without a quantity.
pub open spec fn crossing_price(
    b: BookSnapshot,
    side: IocSide,
    qty: Decimal,
) -> Result<Option<Decimal>, OutOfRange> {
    match tradable_book(b) {
        Err(e) => Err(e),
        Ok(tradable) => if !tradable || qty@ <= 0 {
            Ok(None)
        } else if qty@ <= touch(b, side).1@ {
            Ok(Some(touch(b, side).0))
        } else {
            match decimal::quotient_value(qty, touch(b, side).1) {
                None => Err(OutOfRange),
                Some(times) => match worsened(touch(b, side).0, side, overflow_penalty(times)) {
                    None => Err(OutOfRange),
                    Some(p) => Ok(Some(p)),
                },
            }
        },
    }
}

impl BookSnapshot {
    /// Whether the book can be traded against.
    pub fn tradable(&self) -> (r: Result<bool, OutOfRange>)
        ensures
            r == tradable_book(*self),
    {
        if !self.bid_price.is_positive() || !self.ask_price.is_positive()
            || !self.bid_size.is_positive() || !self.ask_size.is_positive()
            || !self.mid.is_positive() {
            return Ok(false);
        }
        let width = match self.ask_price.checked_sub(self.bid_price) {
            Some(w) => w,
            None => {
                return Err(OutOfRange);
            },
        };
        if !width.is_positive() {
            return Ok(false);
        }
        let bps = decimal::product(width.checked_div(self.mid), Some(Decimal::new(10_000, 0)));
        match bps {
            Some(b) => Ok(b.at_most(Decimal::new(MAX_TRADABLE_FULL_SPREAD_BPS, 0))),
            None => Err(OutOfRange),
        }
    }

    /// The price at which an immediate order of `qty` fills: the touch while it is deep
    /// enough, and one basis point worse for each whole multiple of the touch size that
    /// the order exceeds it by.
    pub fn ioc_fill_price(&self, side: IocSide, qty: Decimal) -> (r: Result<
        Option<Decimal>,
        OutOfRange,
    >)
        ensures
            r == crossing_price(*self, side, qty),
    {
        let tradable = match self.tradable() {
            Ok(t) => t,
            Err(e) => {
                return Err(e);
            },
        };
        if !tradable || !qty.is_positive() {
            return Ok(None);
        }
        let (touch_price, touch_size) = match side {
            IocSide::Buy => (self.ask_price, self.ask_size),
            IocSide::Sell => (self.bid_price, self.bid_size),
        };
        if qty.at_most(touch_size) {
            return Ok(Some(touch_price));
        }
        let times = match qty.checked_div(touch_size) {
            Some(t) => t,
            None => {
                return Err(OutOfRange);
            },
        };
        proof {
            use_type_invariant(&times);
            vstd::arithmetic::mul::lemma_mul_nonnegative(qty@, touch_size@);
            decimal::lemma_whole_units(times);
        }
        let whole: i128 = times.whole_units();
        let multiples: i128 = if whole <= 1 {
            0
        } else {
            whole - 1
        };
        let penalty = Decimal::try_from_i128_with_scale(multiples, 4).unwrap();
        let one = Decimal::new(1, 0);
        let factor = match side {
            IocSide::Buy => one.checked_add(penalty),
            IocSide::Sell => one.checked_sub(penalty),
        };
        match decimal::product(Some(touch_price), factor) {
            Some(p) => Ok(Some(p)),
            None => Err(OutOfRange),
        }
    }
}

/// How often an order of `qty` takes up the size at the touch, in whole multiples beyond the
/// first; zero while the touch is deep enough.
pub open spec fn multiples_beyond(b: BookSnapshot, side: IocSide, qty: Decimal) -> int {
    if qty@ <= touch(b, side).1@ {
        0
    } else {
        beyond_first(decimal::quotient_value(qty, touch(b, side).1)->0)
    }
}

/// What a fill is computed from is made of decimals.
pub open spec fn fill_valid(b: BookSnapshot, qty: Decimal) -> bool {
    &&& b.ask_price.valid() && b.bid_price.valid()
    &&& b.ask_size.valid() && b.bid_size.valid()
    &&& qty.valid()
}

/// A fill is the touch times the factor of its multiples, which fit a coefficient.
proof fn lemma_fill_is_touch_times_factor(b: BookSnapshot, side: IocSide, qty: Decimal)
    requires
        fill_valid(b, qty),
        crossing_price(b, side, qty) matches Ok(Some(_)),
    ensures
        ({
            let k = multiples_beyond(b, side, qty);
            &&& 0 <= k <= decimal::MAX_COEFF
            &&& worsened(touch(b, side).0, side, Decimal::of(k, 4)) matches Some(p) && p@
                == crossing_price(b, side, qty)->Ok_0->0@
        }),
{
    decimal::lemma_of_parts(0, 4);
    decimal::lemma_of_parts(1, 0);
    let size = touch(b, side).1;
    if qty@ > size@ {
        decimal::lemma_value_sign(qty);
        decimal::lemma_value_sign(size);
        vstd::arithmetic::mul::lemma_mul_nonnegative(qty.coeff(), size.coeff());
        decimal::lemma_quotient_in_range(qty, size);
        let v = decimal::quotient_value(qty, size)->0;
        let u = decimal::one_unit();
        let top = decimal::MAX_COEFF as int;
        decimal::lemma_pow10_positive(28);
        assert(v / u <= top) by (nonlinear_arith)
            requires
                v <= top * u,
                u > 0,
        ;
    } else {
        lemma_times_one(touch(b, side).0);
    }
}

/// An amount times one is the amount.
proof fn lemma_times_one(a: Decimal)
    requires
        a.valid(),
    ensures
        decimal::product_of(a, Decimal::of(1, 0)) matches Some(v) && v@ == a@,
{
    decimal::lemma_of_parts(1, 0);
    decimal::lemma_product_value(a, Decimal::of(1, 0));
    decimal::lemma_pow10_positive(28);
    let u = decimal::one_unit();
    let v = decimal::product_of(a, Decimal::of(1, 0))->0@;
    assert(1 * u == u);
    assert(v == a@) by (nonlinear_arith)
        requires
            v * u == a@ * u,
            u > 0,
    ;
}

/// A crossing order never fills better than the touch: it buys no cheaper than the ask and
/// sells no dearer than the bid.
pub proof fn law_fills_are_never_better_than_the_touch(
    b: BookSnapshot,
    side: IocSide,
    qty: Decimal,
)
    requires
        fill_valid(b, qty),
    ensures
        crossing_price(b, side, qty) matches Ok(Some(p)) ==> match side {
            IocSide::Buy => p@ >= b.ask_price@,
            IocSide::Sell => p@ <= b.bid_price@,
        },
{
    if let Ok(Some(_)) = crossing_price(b, side, qty) {
        lemma_fill_is_touch_times_factor(b, side, qty);
        decimal::lemma_of_parts(0, 4);
        decimal::lemma_of_parts(1, 0);
        lemma_times_one(touch(b, side).0);
        lemma_order_of_multiples(touch(b, side).0, side, 0, multiples_beyond(b, side, qty));
    }
}

/// There is no fill exactly where the book cannot be traded against or nothing is asked for,
/// and what the touch holds fills at the touch.
pub proof fn law_the_touch_fills_what_it_holds(b: BookSnapshot, side: IocSide, qty: Decimal)
    requires
        tradable_book(b) is Ok,
    ensures
        crossing_price(b, side, qty) == Ok::<Option<Decimal>, OutOfRange>(None) <==> (
        tradable_book(b) == Ok::<bool, OutOfRange>(false) || qty@ <= 0),
        tradable_book(b) == Ok::<bool, OutOfRange>(true) && 0 < qty@ <= touch(b, side).1@
            ==> crossing_price(b, side, qty) == Ok::<Option<Decimal>, OutOfRange>(
            Some(touch(b, side).0),
        ),
{
}

/// A larger crossing order fills no better than a smaller one on the same book. Two orders
/// of one quantity, written with different scales, are left out where the multiple has no
/// places and is an exact half on a long divisor: there each may be rounded its own way.
pub proof fn law_larger_orders_fill_no_better(
    b: BookSnapshot,
    side: IocSide,
    small: Decimal,
    large: Decimal,
)
    requires
        fill_valid(b, small),
        fill_valid(b, large),
        small@ <= large@,
        small@ == large@ ==> small == large || !(decimal::half_is_open(small, touch(b, side).1)
            || decimal::half_is_open(large, touch(b, side).1)),
    ensures
        crossing_price(b, side, small) matches Ok(Some(p)) ==> crossing_price(
            b,
            side,
            large,
        ) matches Ok(Some(q)) ==> match side {
            IocSide::Buy => p@ <= q@,
            IocSide::Sell => p@ >= q@,
        },
{
    if let Ok(Some(_)) = crossing_price(b, side, small) {
        if let Ok(Some(_)) = crossing_price(b, side, large) {
            lemma_fill_is_touch_times_factor(b, side, small);
            lemma_fill_is_touch_times_factor(b, side, large);
            let size = touch(b, side).1;
            if small@ > size@ {
                decimal::lemma_whole_quotient_keeps_order(small, large, size);
            }
            lemma_order_of_multiples(
                touch(b, side).0,
                side,
                multiples_beyond(b, side, small),
                multiples_beyond(b, side, large),
            );
        }
    }
}

/// A price is moved no less far by more multiples.
proof fn lemma_order_of_multiples(price: Decimal, side: IocSide, j: int, k: int)
    requires
        price.valid(),
        price@ >= 0,
        0 <= j <= k <= decimal::MAX_COEFF,
        worsened(price, side, Decimal::of(j, 4)) is Some,
        worsened(price, side, Decimal::of(k, 4)) is Some,
    ensures
        match side {
            IocSide::Buy => worsened(price, side, Decimal::of(j, 4))->0@ <= worsened(
                price,
                side,
                Decimal::of(k, 4),
            )->0@,
            IocSide::Sell => worsened(price, side, Decimal::of(j, 4))->0@ >= worsened(
                price,
                side,
                Decimal::of(k, 4),
            )->0@,
        },
{
    let one = Decimal::of(1, 0);
    let (a, c) = (Decimal::of(j, 4), Decimal::of(k, 4));
    decimal::lemma_of_parts(1, 0);
    decimal::lemma_of_parts(j, 4);
    decimal::lemma_of_parts(k, 4);
    let f = decimal::pow10(24);
    decimal::lemma_pow10_positive(24);
    decimal::lemma_pow10_positive(28);
    assert(0 <= j * f <= k * f) by (nonlinear_arith)
        requires
            0 <= j <= k,
            f > 0,
    ;
    let (x, y) = (penalty_factor(side, a)->0, penalty_factor(side, c)->0);
    match side {
        IocSide::Buy => {
            decimal::lemma_sum_keeps_order(one, a, a);
            decimal::lemma_sum_keeps_order(one, a, c);
            decimal::lemma_product_keeps_order(price, x, y);
        },
        IocSide::Sell => {
            lemma_less_a_penalty(j);
            lemma_less_a_penalty(k);
            decimal::lemma_product_keeps_order(price, y, x);
        },
    }
}

/// A penalty is taken from one without dropping a digit.
proof fn lemma_less_a_penalty(k: int)
    requires
        0 <= k <= decimal::MAX_COEFF,
    ensures
        penalty_factor(IocSide::Sell, Decimal::of(k, 4)) matches Some(f) && f.valid() && f@
            == Decimal::of(1, 0)@ - Decimal::of(k, 4)@,
{
    decimal::lemma_of_parts(1, 0);
    decimal::lemma_of_parts(k, 4);
    reveal_with_fuel(decimal::pow10, 6);
    assert(1 * decimal::pow10(4) == 10_000);
    assert((-k) * decimal::pow10(0) == -k);
    decimal::lemma_difference_value(Decimal::of(1, 0), Decimal::of(k, 4));
}

/// The cost of a fill against the mid: positive when it went against us.
pub open spec fn cost_against_mid(
    fill: Decimal,
    mid: Decimal,
    side: IocSide,
    qty: Decimal,
) -> Option<Decimal> {
    decimal::opt_product(
        match side {
            IocSide::Buy => decimal::difference_of(fill, mid),
            IocSide::Sell => decimal::difference_of(mid, fill),
        },
        Some(qty),
    )
}

pub fn signed_side_cost(fill: Decimal, mid: Decimal, side: IocSide, qty: Decimal) -> (c: Option<
    Decimal,
>)
    ensures
        c == cost_against_mid(fill, mid, side, qty),
{
    let per_unit = match side {
        IocSide::Buy => fill.checked_sub(mid),
        IocSide::Sell => mid.checked_sub(fill),
    };
    decimal::product(per_unit, Some(qty))
}

/// The outcome of one resting order.
#[derive(Clone, Copy, Debug, PartialEq, Eq, Structural)]
pub struct MakerOutcome {
    pub fill_p: Double,
    pub sampled_fill: bool,
}

/// The queue that a resting order joins: a purchase rests at the bid, a sale at the ask.
pub open spec fn resting_depth(b: BookSnapshot, side: IocSide) -> Decimal {
    match side {
        IocSide::Buy => b.bid_size,
        IocSide::Sell => b.ask_size,
    }
}

/// The price at which a resting order fills.
pub open spec fn resting_price(b: BookSnapshot, side: IocSide) -> Decimal {
    match side {
        IocSide::Buy => b.bid_price,
        IocSide::Sell => b.ask_price,
    }
}

/// The outcome of a resting order with fill probability `fill_p`, `None` on a book that
/// cannot be traded against or without a quantity.
pub open spec fn maker_outcome(
    b: BookSnapshot,
    side: IocSide,
    qty: Decimal,
    fill_p: Double,
    seed: u64,
) -> Result<Option<MakerOutcome>, OutOfRange> {
    match tradable_book(b) {
        Err(e) => Err(e),
        Ok(tradable) => if tradable && qty@ > 0 && resting_depth(b, side)@ > 0 {
            Ok(
                Some(
                    MakerOutcome {
                        fill_p,
                        sampled_fill: maker::drawn_below(maker::std_rng_word(seed), fill_p),
                    },
                ),
            )
        } else {
            Ok(None)
        },
    }
}

/// The depth of the queue that a resting order joins.
pub fn maker_depth(book: &BookSnapshot, side: IocSide) -> (d: Decimal)
    ensures
        d == resting_depth(*book, side),
{
    match side {
        IocSide::Buy => book.bid_size,
        IocSide::Sell => book.ask_size,
    }
}

/// Samples a resting order. `fill_p` is the probability `1 - qty / depth`, held to
/// `[0, 1]`, in the queue of [`maker_depth`].
pub fn would_be_maker_outcome(
    book: &BookSnapshot,
    side: IocSide,
    qty: Decimal,
    fill_p: Double,
    seed: u64,
) -> (o: Result<Option<MakerOutcome>, OutOfRange>)
    ensures
        o == maker_outcome(*book, side, qty, fill_p, seed),
{
    let tradable = match book.tradable() {
        Ok(t) => t,
        Err(e) => {
            return Err(e);
        },
    };
    if !tradable || !qty.is_positive() || !maker_depth(book, side).is_positive() {
        return Ok(None);
    }
    Ok(Some(MakerOutcome { fill_p, sampled_fill: maker::sampled_fill(seed, fill_p) }))
}

/// `bps` basis points of a notional.
pub open spec fn bps_of(bps: Option<Decimal>, notional_usd: Decimal) -> Option<Decimal> {
    decimal::opt_quotient(
        decimal::product_of(live_pnl::rate_or_zero(bps), notional_usd),
        Some(Decimal::of(10_000, 0)),
    )
}

fn bps_share(bps: Option<Decimal>, notional_usd: Decimal) -> (r: Option<Decimal>)
    ensures
        r == bps_of(bps, notional_usd),
{
    let rate = match bps {
        Some(b) => b,
        None => Decimal::zero(),
    };
    decimal::quotient(rate.checked_mul(notional_usd), Some(Decimal::new(10_000, 0)))
}

/// How one side of a leg is executed: whether an order rests first, its fill probability
/// and seed, and what a missed one costs on top, in basis points of the notional.
#[derive(Clone, Copy, Debug)]
pub struct SideTerms {
    pub post_only: bool,
    pub fill_p: Double,
    pub seed: u64,
    pub chase_miss_penalty_bps: Option<Decimal>,
    pub notional_usd: Decimal,
}

/// The cost of crossing the book.
pub open spec fn crossing_cost(
    b: BookSnapshot,
    mid: Decimal,
    qty: Decimal,
    side: IocSide,
) -> Result<Option<Decimal>, OutOfRange> {
    match crossing_price(b, side, qty) {
        Err(e) => Err(e),
        Ok(None) => Ok(None),
        Ok(Some(p)) => match cost_against_mid(p, mid, side, qty) {
            None => Err(OutOfRange),
            Some(c) => Ok(Some(c)),
        },
    }
}

/// The cost of one side of a leg, `None` where the book does not tell. A resting order
/// that fills does so at its own side; one that misses crosses and pays the penalty.
pub open spec fn side_cost(
    book: Option<BookSnapshot>,
    mid: Decimal,
    qty: Decimal,
    side: IocSide,
    terms: SideTerms,
) -> Result<Option<Decimal>, OutOfRange> {
    match book {
        None => Ok(None),
        Some(b) => if !terms.post_only {
            crossing_cost(b, mid, qty, side)
        } else {
            match maker_outcome(b, side, qty, terms.fill_p, terms.seed) {
                Err(e) => Err(e),
                Ok(None) => Ok(None),
                Ok(Some(o)) => if o.sampled_fill {
                    match cost_against_mid(resting_price(b, side), mid, side, qty) {
                        None => Err(OutOfRange),
                        Some(c) => Ok(Some(c)),
                    }
                } else {
                    match crossing_cost(b, mid, qty, side) {
                        Err(e) => Err(e),
                        Ok(None) => Ok(None),
                        Ok(Some(c)) => match decimal::opt_sum(
                            Some(c),
                            bps_of(terms.chase_miss_penalty_bps, terms.notional_usd),
                        ) {
                            None => Err(OutOfRange),
                            Some(t) => Ok(Some(t)),
                        },
                    }
                },
            }
        },
    }
}

fn crossing_side_cost(book: &BookSnapshot, mid: Decimal, qty: Decimal, side: IocSide) -> (c: Result<
    Option<Decimal>,
    OutOfRange,
>)
    ensures
        c == crossing_cost(*book, mid, qty, side),
{
    match book.ioc_fill_price(side, qty) {
        Err(e) => Err(e),
        Ok(None) => Ok(None),
        Ok(Some(p)) => match signed_side_cost(p, mid, side, qty) {
            None => Err(OutOfRange),
            Some(c) => Ok(Some(c)),
        },
    }
}

/// The cost of one side of a leg, or `None` where the book does not tell.
pub fn side_signed_cost(
    book: Option<BookSnapshot>,
    mid: Decimal,
    qty: Decimal,
    side: IocSide,
    terms: SideTerms,
) -> (c: Result<Option<Decimal>, OutOfRange>)
    ensures
        c == side_cost(book, mid, qty, side, terms),
{
    let book = match book {
        Some(b) => b,
        None => {
            return Ok(None);
        },
    };
    if !terms.post_only {
        return crossing_side_cost(&book, mid, qty, side);
    }
    match would_be_maker_outcome(&book, side, qty, terms.fill_p, terms.seed) {
        Err(e) => Err(e),
        Ok(None) => Ok(None),
        Ok(Some(o)) => {
            if o.sampled_fill {
                // Our own side of the touch was crossed by someone else.
                let fill = match side {
                    IocSide::Buy => book.bid_price,
                    IocSide::Sell => book.ask_price,
                };
                return match signed_side_cost(fill, mid, side, qty) {
                    None => Err(OutOfRange),
                    Some(c) => Ok(Some(c)),
                };
            }
            match crossing_side_cost(&book, mid, qty, side) {
                Err(e) => Err(e),
                Ok(None) => Ok(None),
                Ok(Some(c)) => {
                    let penalty = bps_share(terms.chase_miss_penalty_bps, terms.notional_usd);
                    match decimal::sum(Some(c), penalty) {
                        None => Err(OutOfRange),
                        Some(t) => Ok(Some(t)),
                    }
                },
            }
        },
    }
}

/// One leg of a round trip: its books, mids, quantity and sides.
#[derive(Clone, Copy, Debug)]
pub struct LegTrip {
    pub entry_book: Option<BookSnapshot>,
    pub exit_book: Option<BookSnapshot>,
    pub entry_mid: Decimal,
    pub exit_mid: Decimal,
    pub qty: Decimal,
    pub entry_side: IocSide,
    pub exit_side: IocSide,
}

/// The slippage of a leg: what its two sides cost, or the flat rate where a book is
/// missing on either.
pub open spec fn leg_slippage(
    leg: LegTrip,
    fallback_round_trip_slippage_bps: Option<Decimal>,
    entry_terms: SideTerms,
    exit_terms: SideTerms,
) -> Result<Decimal, OutOfRange> {
    match (
        side_cost(leg.entry_book, leg.entry_mid, leg.qty, leg.entry_side, entry_terms),
        side_cost(leg.exit_book, leg.exit_mid, leg.qty, leg.exit_side, exit_terms),
    ) {
        (Err(e), _) => Err(e),
        (_, Err(e)) => Err(e),
        (Ok(Some(a)), Ok(Some(b))) => decimal::in_range(decimal::sum_of(a, b)),
        _ => decimal::in_range(
            bps_of(fallback_round_trip_slippage_bps, entry_terms.notional_usd),
        ),
    }
}

pub fn compute_leg_slippage_cost(
    leg: &LegTrip,
    fallback_round_trip_slippage_bps: Option<Decimal>,
    entry_terms: SideTerms,
    exit_terms: SideTerms,
) -> (c: Result<Decimal, OutOfRange>)
    ensures
        c == leg_slippage(*leg, fallback_round_trip_slippage_bps, entry_terms, exit_terms),
{
    let entry_cost = side_signed_cost(
        leg.entry_book,
        leg.entry_mid,
        leg.qty,
        leg.entry_side,
        entry_terms,
    );
    let exit_cost = side_signed_cost(
        leg.exit_book,
        leg.exit_mid,
        leg.qty,
        leg.exit_side,
        exit_terms,
    );
    match (entry_cost, exit_cost) {
        (Err(e), _) => Err(e),
        (_, Err(e)) => Err(e),
        (Ok(Some(a)), Ok(Some(b))) => decimal::ranged(a.checked_add(b)),
        _ => decimal::ranged(bps_share(fallback_round_trip_slippage_bps, entry_terms.notional_usd)),
    }
}

/// Backtest configuration. Rates are in basis points and arrive as the decimals they
/// convert to; one that does not convert counts as zero.
#[derive(Clone, Debug)]
pub struct BtConfig {
    pub spread: SpreadConfig,
    pub signal: SignalConfig,
    pub symbol_extended: String,
    pub symbol_lighter: String,
    /// Notional of each leg.
    pub trade_notional_usd: Decimal,
    /// Taker fees of a whole round trip.
    pub extended_taker_fee_bps: Option<Decimal>,
    pub lighter_taker_fee_bps: Option<Decimal>,
    /// Flat slippage of a round trip where books are missing.
    pub extended_round_trip_slippage_bps: Option<Decimal>,
    pub lighter_round_trip_slippage_bps: Option<Decimal>,
    /// Lighter orders rest first and cross only when they miss.
    pub lighter_post_only: bool,
    /// What a missed resting order costs on top of crossing, per side.
    pub lighter_chase_miss_penalty_bps: Option<Decimal>,
    pub extended_chase_miss_penalty_bps: Option<Decimal>,
    /// Reference prices, one per minute, and how far a mid may stray from them.
    pub binance_ref_path: Option<String>,
    pub binance_ref_max_dev_bps: Double,
    /// Keep a record of every committed bucket.
    pub record_buckets: bool,
}

impl Default for BtConfig {
    fn default() -> (c: BtConfig)
        ensures
            c.spread == (SpreadConfig {
                bucket_ms: 1_000,
                rolling_window_sec: 1_800,
                max_abs_spread_bps: None,
            }),
            c.signal.abs_threshold_bps.is_whole(5),
            c.signal.persistence_sec == 15,
            c.signal.exit_at_mean_cross,
            c.signal.max_hold_sec == 600,
            c.signal.force_close_dev_bps.is_whole(30),
            c.signal.min_warmup_samples == 60,
            c.signal.entry_check_threshold_at_fire,
            c.signal.signal_mode == SignalMode::MidToMid,
            c.signal.funding_cycle_sec == 0,
            c.signal.funding_lockout_pre_sec == 0,
            c.signal.funding_lockout_post_sec == 0,
            c.symbol_extended@ == "BTC"@,
            c.symbol_lighter@ == "BTC"@,
            c.trade_notional_usd == Decimal::of(100, 0),
            c.extended_taker_fee_bps == Some(Decimal::of(25, 1)),
            c.lighter_taker_fee_bps == Some(decimal::zero_decimal()),
            c.extended_round_trip_slippage_bps == Some(decimal::zero_decimal()),
            c.lighter_round_trip_slippage_bps == Some(decimal::zero_decimal()),
            !c.lighter_post_only,
            c.lighter_chase_miss_penalty_bps == Some(decimal::zero_decimal()),
            c.extended_chase_miss_penalty_bps == Some(decimal::zero_decimal()),
            c.binance_ref_path is None,
            c.binance_ref_max_dev_bps == (Double { bits: 0 }),
            !c.record_buckets,
    {
        BtConfig {
            spread: SpreadConfig::default(),
            signal: SignalConfig::default(),
            symbol_extended: String::from_str("BTC"),
            symbol_lighter: String::from_str("BTC"),
            trade_notional_usd: Decimal::new(100, 0),
            extended_taker_fee_bps: Some(Decimal::new(25, 1)),
            lighter_taker_fee_bps: Some(Decimal::zero()),
            extended_round_trip_slippage_bps: Some(Decimal::zero()),
            lighter_round_trip_slippage_bps: Some(Decimal::zero()),
            lighter_post_only: false,
            lighter_chase_miss_penalty_bps: Some(Decimal::zero()),
            extended_chase_miss_penalty_bps: Some(Decimal::zero()),
            binance_ref_path: None,
            binance_ref_max_dev_bps: Double::zero(),
            record_buckets: false,
        }
    }
}

/// One closed trade. The result in basis points is `net / (2 * notional) * 10000`, a
/// double that the caller derives.
#[derive(Clone, Copy, Debug)]
pub struct TradeRecord {
    pub direction: SpreadDirection,
    pub entry_ts_ms: u64,
    pub exit_ts_ms: u64,
    pub hold_secs: u64,
    pub exit_reason: ExitReason,
    pub entry_dev_bps: Double,
    pub exit_dev_bps: Double,
    pub entry_ext_mid: Decimal,
    pub entry_lt_mid: Decimal,
    pub exit_ext_mid: Decimal,
    pub exit_lt_mid: Decimal,
    pub qty: Decimal,
    pub gross_pnl_usd: Decimal,
    pub fees_usd: Decimal,
    pub net_pnl_usd: Decimal,
}

/// One committed bucket.
#[derive(Clone, Copy, Debug)]
pub struct BucketRecord {
    pub bucket_ts_ms: u64,
    pub ext_ts_ms: u64,
    pub lt_ts_ms: u64,
    pub ext_mid: Decimal,
    pub lt_mid: Decimal,
    pub spread_bps: Double,
    pub rolling_mean_bps: Double,
    pub dev_bps: Double,
}

/// The entry of the open position.
#[derive(Clone, Copy, Debug)]
pub struct OpenLeg {
    pub direction: SpreadDirection,
    pub entry_ts_ms: u64,
    pub entry_dev_bps: Double,
    pub entry_ext_mid: Decimal,
    pub entry_lt_mid: Decimal,
    pub entry_ext_book: Option<BookSnapshot>,
    pub entry_lt_book: Option<BookSnapshot>,
    pub qty: Decimal,
}

/// The exit of a trade.
#[derive(Clone, Copy, Debug)]
pub struct TradeExit {
    pub ts_ms: u64,
    pub dev_bps: Double,
    pub ext_mid: Decimal,
    pub lt_mid: Decimal,
    pub ext_book: Option<BookSnapshot>,
    pub lt_book: Option<BookSnapshot>,
    pub reason: ExitReason,
}

/// Fill probabilities of the resting Lighter orders of a trade.
#[derive(Clone, Copy, Debug, PartialEq, Eq, Structural)]
pub struct RestingOdds {
    pub entry: Double,
    pub exit: Double,
}

/// The change of the spread, signed by the direction, times the quantity.
pub open spec fn trade_gross(leg: OpenLeg, exit: TradeExit) -> Option<Decimal> {
    decimal::opt_product(
        Some(
            match leg.direction {
                SpreadDirection::Long => leg.qty,
                SpreadDirection::Short => decimal::negated(leg.qty),
            },
        ),
        decimal::opt_difference(
            decimal::difference_of(exit.ext_mid, leg.entry_ext_mid),
            decimal::difference_of(exit.lt_mid, leg.entry_lt_mid),
        ),
    )
}

/// The Extended leg of a trade, always crossed.
pub open spec fn extended_trip(leg: OpenLeg, exit: TradeExit) -> LegTrip {
    LegTrip {
        entry_book: leg.entry_ext_book,
        exit_book: exit.ext_book,
        entry_mid: leg.entry_ext_mid,
        exit_mid: exit.ext_mid,
        qty: leg.qty,
        entry_side: sides_at_entry(leg.direction).0,
        exit_side: sides_at_exit(leg.direction).0,
    }
}

pub open spec fn lighter_trip(leg: OpenLeg, exit: TradeExit) -> LegTrip {
    LegTrip {
        entry_book: leg.entry_lt_book,
        exit_book: exit.lt_book,
        entry_mid: leg.entry_lt_mid,
        exit_mid: exit.lt_mid,
        qty: leg.qty,
        entry_side: sides_at_entry(leg.direction).1,
        exit_side: sides_at_exit(leg.direction).1,
    }
}

pub open spec fn extended_terms(cfg: BtConfig) -> SideTerms {
    SideTerms {
        post_only: false,
        fill_p: Double { bits: 0 },
        seed: 0,
        chase_miss_penalty_bps: cfg.extended_chase_miss_penalty_bps,
        notional_usd: cfg.trade_notional_usd,
    }
}

pub open spec fn lighter_terms(cfg: BtConfig, fill_p: Double, seed: u64) -> SideTerms {
    SideTerms {
        post_only: cfg.lighter_post_only,
        fill_p,
        seed,
        chase_miss_penalty_bps: cfg.lighter_chase_miss_penalty_bps,
        notional_usd: cfg.trade_notional_usd,
    }
}

/// The fee of a round trip on one venue: its rate, which is that of the round trip, on the
/// notional.
pub open spec fn round_trip_fee(fee_bps: Option<Decimal>, notional_usd: Decimal) -> Option<Decimal> {
    decimal::opt_quotient(
        decimal::product_of(live_pnl::rate_or_zero(fee_bps), notional_usd),
        Some(Decimal::of(10_000, 0)),
    )
}

/// Fees and slippage of both venues.
pub open spec fn trade_fees(
    cfg: BtConfig,
    leg: OpenLeg,
    exit: TradeExit,
    odds: RestingOdds,
) -> Option<Decimal> {
    match (
        leg_slippage(
            extended_trip(leg, exit),
            cfg.extended_round_trip_slippage_bps,
            extended_terms(cfg),
            extended_terms(cfg),
        ),
        leg_slippage(
            lighter_trip(leg, exit),
            cfg.lighter_round_trip_slippage_bps,
            lighter_terms(cfg, odds.entry, leg.entry_ts_ms ^ 0xA1),
            lighter_terms(cfg, odds.exit, exit.ts_ms ^ 0xA2),
        ),
    ) {
        (Ok(ext_slip), Ok(lt_slip)) => decimal::opt_sum(
            decimal::opt_sum(
                decimal::opt_sum(
                    round_trip_fee(cfg.extended_taker_fee_bps, cfg.trade_notional_usd),
                    round_trip_fee(cfg.lighter_taker_fee_bps, cfg.trade_notional_usd),
                ),
                Some(ext_slip),
            ),
            Some(lt_slip),
        ),
        _ => None,
    }
}

/// The record of a closed trade; `None` if an amount leaves the range of a decimal.
pub open spec fn settled(
    cfg: BtConfig,
    leg: OpenLeg,
    exit: TradeExit,
    odds: RestingOdds,
) -> Option<TradeRecord> {
    match (trade_gross(leg, exit), trade_fees(cfg, leg, exit, odds)) {
        (Some(gross), Some(fees)) => match decimal::difference_of(gross, fees) {
            Some(net) => Some(
                TradeRecord {
                    direction: leg.direction,
                    entry_ts_ms: leg.entry_ts_ms,
                    exit_ts_ms: exit.ts_ms,
                    hold_secs: (time::ms_between(exit.ts_ms, leg.entry_ts_ms) / 1000) as u64,
                    exit_reason: exit.reason,
                    entry_dev_bps: leg.entry_dev_bps,
                    exit_dev_bps: exit.dev_bps,
                    entry_ext_mid: leg.entry_ext_mid,
                    entry_lt_mid: leg.entry_lt_mid,
                    exit_ext_mid: exit.ext_mid,
                    exit_lt_mid: exit.lt_mid,
                    qty: leg.qty,
                    gross_pnl_usd: gross,
                    fees_usd: fees,
                    net_pnl_usd: net,
                },
            ),
            None => None,
        },
        _ => None,
    }
}

fn venue_fee(fee_bps: Option<Decimal>, notional_usd: Decimal) -> (f: Option<Decimal>)
    ensures
        f == round_trip_fee(fee_bps, notional_usd),
{
    let rate = match fee_bps {
        Some(b) => b,
        None => Decimal::zero(),
    };
    decimal::quotient(rate.checked_mul(notional_usd), Some(Decimal::new(10_000, 0)))
}

/// Settles a trade; `None` if an amount leaves the range of a decimal. The odds matter
/// only where Lighter orders rest; the seeds of the two sides differ.
pub fn settle_trade(cfg: &BtConfig, leg: &OpenLeg, exit: &TradeExit, odds: RestingOdds) -> (r:
    Option<TradeRecord>)
    ensures
        r == settled(*cfg, *leg, *exit, odds),
{
    let ext_delta = exit.ext_mid.checked_sub(leg.entry_ext_mid);
    let lt_delta = exit.lt_mid.checked_sub(leg.entry_lt_mid);
    let signed_qty = match leg.direction {
        SpreadDirection::Long => leg.qty,
        SpreadDirection::Short => leg.qty.neg(),
    };
    let gross = decimal::product(Some(signed_qty), decimal::difference(ext_delta, lt_delta));

    let (ext_entry_side, lt_entry_side) = entry_sides(leg.direction);
    let (ext_exit_side, lt_exit_side) = exit_sides(leg.direction);
    let ext_terms = SideTerms {
        post_only: false,
        fill_p: Double::zero(),
        seed: 0,
        chase_miss_penalty_bps: cfg.extended_chase_miss_penalty_bps,
        notional_usd: cfg.trade_notional_usd,
    };
    assert(ext_terms == extended_terms(*cfg));
    let ext_slip = compute_leg_slippage_cost(
        &LegTrip {
            entry_book: leg.entry_ext_book,
            exit_book: exit.ext_book,
            entry_mid: leg.entry_ext_mid,
            exit_mid: exit.ext_mid,
            qty: leg.qty,
            entry_side: ext_entry_side,
            exit_side: ext_exit_side,
        },
        cfg.extended_round_trip_slippage_bps,
        ext_terms,
        ext_terms,
    );
    let lt_slip = compute_leg_slippage_cost(
        &LegTrip {
            entry_book: leg.entry_lt_book,
            exit_book: exit.lt_book,
            entry_mid: leg.entry_lt_mid,
            exit_mid: exit.lt_mid,
            qty: leg.qty,
            entry_side: lt_entry_side,
            exit_side: lt_exit_side,
        },
        cfg.lighter_round_trip_slippage_bps,
        SideTerms {
            post_only: cfg.lighter_post_only,
            fill_p: odds.entry,
            seed: leg.entry_ts_ms ^ 0xA1,
            chase_miss_penalty_bps: cfg.lighter_chase_miss_penalty_bps,
            notional_usd: cfg.trade_notional_usd,
        },
        SideTerms {
            post_only: cfg.lighter_post_only,
            fill_p: odds.exit,
            seed: exit.ts_ms ^ 0xA2,
            chase_miss_penalty_bps: cfg.lighter_chase_miss_penalty_bps,
            notional_usd: cfg.trade_notional_usd,
        },
    );
    let ext_fee = venue_fee(cfg.extended_taker_fee_bps, cfg.trade_notional_usd);
    let lt_fee = venue_fee(cfg.lighter_taker_fee_bps, cfg.trade_notional_usd);
    let fees = match (ext_slip, lt_slip) {
        (Ok(e), Ok(l)) => decimal::sum(
            decimal::sum(decimal::sum(ext_fee, lt_fee), Some(e)),
            Some(l),
        ),
        _ => None,
    };
    match (gross, fees) {
        (Some(gross_pnl_usd), Some(fees_usd)) => match gross_pnl_usd.checked_sub(fees_usd) {
            Some(net_pnl_usd) => Some(
                TradeRecord {
                    direction: leg.direction,
                    entry_ts_ms: leg.entry_ts_ms,
                    exit_ts_ms: exit.ts_ms,
                    hold_secs: time::elapsed_ms(exit.ts_ms, leg.entry_ts_ms) / 1_000,
                    exit_reason: exit.reason,
                    entry_dev_bps: leg.entry_dev_bps,
                    exit_dev_bps: exit.dev_bps,
                    entry_ext_mid: leg.entry_ext_mid,
                    entry_lt_mid: leg.entry_lt_mid,
                    exit_ext_mid: exit.ext_mid,
                    exit_lt_mid: exit.lt_mid,
                    qty: leg.qty,
                    gross_pnl_usd,
                    fees_usd,
                    net_pnl_usd,
                },
            ),
            None => None,
        },
        _ => None,
    }
}

/// What a closed trade nets is its gross less its fees, and both are those of its legs.
pub proof fn law_net_is_gross_less_fees(
    cfg: BtConfig,
    leg: OpenLeg,
    exit: TradeExit,
    odds: RestingOdds,
)
    ensures
        settled(cfg, leg, exit, odds) matches Some(t) ==> {
            &&& Some(t.net_pnl_usd) == decimal::difference_of(t.gross_pnl_usd, t.fees_usd)
            &&& Some(t.gross_pnl_usd) == trade_gross(leg, exit)
            &&& Some(t.fees_usd) == trade_fees(cfg, leg, exit, odds)
        },
{
}

/// The amounts that the gross of a trade is computed from are decimals.
pub open spec fn trade_valid(leg: OpenLeg, exit: TradeExit) -> bool {
    &&& leg.qty.valid()
    &&& leg.entry_ext_mid.valid() && leg.entry_lt_mid.valid()
    &&& exit.ext_mid.valid() && exit.lt_mid.valid()
}

/// The gross of a closed trade is its quantity times what Extended gained on Lighter since the
/// entry, for a long spread, and the negative of that for a short one. A move of both venues
/// by one amount is worth nothing in either direction.
pub proof fn law_gross_is_what_one_venue_gains_on_the_other(
    cfg: BtConfig,
    leg: OpenLeg,
    exit: TradeExit,
    odds: RestingOdds,
)
    requires
        trade_valid(leg, exit),
    ensures
        settled(cfg, leg, exit, odds) matches Some(t) ==> {
            let ext = exit.ext_mid@ - leg.entry_ext_mid@;
            let lt = exit.lt_mid@ - leg.entry_lt_mid@;
            let gained = if leg.direction == SpreadDirection::Long {
                ext - lt
            } else {
                lt - ext
            };
            2 * (decimal::MAX_COEFF * decimal::abs_int(
                t.gross_pnl_usd@ * decimal::one_unit() - leg.qty@ * gained,
            )) <= 60 * (decimal::abs_int(leg.qty@) * (decimal::abs_int(ext) + decimal::abs_int(lt)))
                + decimal::MAX_COEFF * decimal::one_unit()
        },
{
    if let Some(t) = settled(cfg, leg, exit, odds) {
        decimal::lemma_difference_close(exit.ext_mid, leg.entry_ext_mid);
        decimal::lemma_difference_close(exit.lt_mid, leg.entry_lt_mid);
        let a = decimal::difference_of(exit.ext_mid, leg.entry_ext_mid)->0;
        let b = decimal::difference_of(exit.lt_mid, leg.entry_lt_mid)->0;
        decimal::lemma_difference_close(a, b);
        let c = decimal::difference_of(a, b)->0;
        let ext = exit.ext_mid@ - leg.entry_ext_mid@;
        let lt = exit.lt_mid@ - leg.entry_lt_mid@;
        let size = decimal::abs_int(ext) + decimal::abs_int(lt);
        decimal::lemma_change_error(ext, lt, a@, b@, c@);
        let q = match leg.direction {
            SpreadDirection::Long => leg.qty,
            SpreadDirection::Short => decimal::negated(leg.qty),
        };
        decimal::lemma_negated(leg.qty);
        decimal::lemma_product_error(q, c);
        decimal::lemma_scaled_error(q@, c@, ext - lt, size, t.gross_pnl_usd@);
        let k = leg.qty@;
        let x = ext - lt;
        assert((-k) * x == k * (-x)) by (nonlinear_arith);
        assert(-(ext - lt) == lt - ext);
    }
}

/// The same trade done the other way round has the opposite gross, to the last digit, and one
/// is in range where the other is.
pub proof fn law_gross_turns_with_the_direction(leg: OpenLeg, other: OpenLeg, exit: TradeExit)
    requires
        trade_valid(leg, exit),
        other == (OpenLeg { direction: signal::other_side(leg.direction), ..leg }),
    ensures
        trade_gross(leg, exit) is Some == trade_gross(other, exit) is Some,
        trade_gross(leg, exit) matches Some(g) ==> trade_gross(other, exit)->0@ == -g@,
{
    decimal::lemma_negated(leg.qty);
    decimal::lemma_difference_close(exit.ext_mid, leg.entry_ext_mid);
    decimal::lemma_difference_close(exit.lt_mid, leg.entry_lt_mid);
    let a = decimal::difference_of(exit.ext_mid, leg.entry_ext_mid);
    let b = decimal::difference_of(exit.lt_mid, leg.entry_lt_mid);
    if a is Some && b is Some {
        decimal::lemma_difference_close(a->0, b->0);
        if let Some(c) = decimal::difference_of(a->0, b->0) {
            decimal::lemma_opposite_products(leg.qty, decimal::negated(leg.qty), c);
        }
    }
}

/// What a closed trade nets is its gross less all that was charged.
pub proof fn law_net_is_gross_less_charges(
    cfg: BtConfig,
    leg: OpenLeg,
    exit: TradeExit,
    odds: RestingOdds,
)
    ensures
        settled(cfg, leg, exit, odds) matches Some(t) ==> t.gross_pnl_usd.valid()
            && t.fees_usd.valid() ==> decimal::MAX_COEFF * decimal::abs_int(
            t.net_pnl_usd@ - (t.gross_pnl_usd@ - t.fees_usd@),
        ) <= 5 * decimal::abs_int(t.gross_pnl_usd@ - t.fees_usd@),
{
    if let Some(t) = settled(cfg, leg, exit, odds) {
        if t.gross_pnl_usd.valid() && t.fees_usd.valid() {
            decimal::lemma_difference_close(t.gross_pnl_usd, t.fees_usd);
        }
    }
}

/// A record tells the trade that was closed: its direction, times, reason, deviations, mids
/// and quantity are those of the entry and of the exit, each in its own place.
pub proof fn law_records_tell_the_trade(
    cfg: BtConfig,
    leg: OpenLeg,
    exit: TradeExit,
    odds: RestingOdds,
)
    ensures
        settled(cfg, leg, exit, odds) matches Some(t) ==> {
            &&& t.direction == leg.direction
            &&& t.qty == leg.qty
            &&& t.entry_ts_ms == leg.entry_ts_ms && t.exit_ts_ms == exit.ts_ms
            &&& leg.entry_ts_ms <= exit.ts_ms ==> t.hold_secs * 1000 <= exit.ts_ms - leg.entry_ts_ms
                < t.hold_secs * 1000 + 1000
            &&& exit.ts_ms < leg.entry_ts_ms ==> t.hold_secs == 0
            &&& t.exit_reason == exit.reason
            &&& t.entry_dev_bps == leg.entry_dev_bps && t.exit_dev_bps == exit.dev_bps
            &&& t.entry_ext_mid == leg.entry_ext_mid && t.exit_ext_mid == exit.ext_mid
            &&& t.entry_lt_mid == leg.entry_lt_mid && t.exit_lt_mid == exit.lt_mid
        },
{
}

/// A rate in basis points of a notional is the notional times the rate over ten thousand.
pub proof fn law_basis_points_of_a_notional(bps: Decimal, notional_usd: Decimal)
    requires
        bps.valid() && notional_usd.valid(),
    ensures
        ({
            let exact = bps@ * notional_usd@;
            let one = decimal::one_unit();
            let slack = 30 * decimal::abs_int(exact) + 20_000 * (decimal::MAX_COEFF * one);
            &&& bps_of(Some(bps), notional_usd) matches Some(c) ==> c.valid() && 2 * (
            decimal::MAX_COEFF * decimal::abs_int(10_000 * (c@ * one) - exact)) <= slack
            &&& round_trip_fee(Some(bps), notional_usd) matches Some(c) ==> c.valid() && 2 * (
            decimal::MAX_COEFF * decimal::abs_int(10_000 * (c@ * one) - exact)) <= slack
            &&& bps_of(None, notional_usd) matches Some(c) ==> c@ == 0
            &&& round_trip_fee(None, notional_usd) matches Some(c) ==> c@ == 0
        }),
{
    let one = decimal::one_unit();
    let ten = Decimal::of(10_000, 0);
    decimal::lemma_of_parts(10_000, 0);
    decimal::lemma_of_parts(0, 0);
    decimal::lemma_pow10_positive(28);
    decimal::lemma_value_sign(decimal::zero_decimal());
    decimal::lemma_product_error(bps, notional_usd);
    decimal::lemma_value_sign(ten);
    if let Some(g) = decimal::product_of(bps, notional_usd) {
        decimal::lemma_quotient_error(g, ten);
        if let Some(c) = decimal::quotient_of(g, ten) {
            let exact = bps@ * notional_usd@;
            let top = decimal::MAX_COEFF as int;
            assert(ten@ == 10_000 * one);
            let l = decimal::abs_int(10_000 * c@ - g@);
            assert(c@ * ten@ - g@ * one == (10_000 * c@ - g@) * one) by (nonlinear_arith)
                requires
                    ten@ == 10_000 * one,
            ;
            assert(decimal::abs_int((10_000 * c@ - g@) * one) == l * one) by (nonlinear_arith)
                requires
                    l == decimal::abs_int(10_000 * c@ - g@),
                    one > 0,
            ;
            assert(10_000 * (c@ * one) - g@ * one == (10_000 * c@ - g@) * one) by (nonlinear_arith);
        }
    }
}

/// Where no book is known, the charges of a trade are the four configured rates on the
/// notional: a fee for the round trip and a flat slippage, on each venue.
pub proof fn law_charges_without_books(
    cfg: BtConfig,
    leg: OpenLeg,
    exit: TradeExit,
    odds: RestingOdds,
)
    requires
        leg.entry_ext_book is None && leg.entry_lt_book is None,
        exit.ext_book is None && exit.lt_book is None,
    ensures
        settled(cfg, leg, exit, odds) matches Some(t) ==> Some(t.fees_usd) == decimal::opt_sum(
            decimal::opt_sum(
                decimal::opt_sum(
                    bps_of(cfg.extended_taker_fee_bps, cfg.trade_notional_usd),
                    bps_of(cfg.lighter_taker_fee_bps, cfg.trade_notional_usd),
                ),
                bps_of(cfg.extended_round_trip_slippage_bps, cfg.trade_notional_usd),
            ),
            bps_of(cfg.lighter_round_trip_slippage_bps, cfg.trade_notional_usd),
        ),
{
}

/// What one side of a leg costs is its quantity times the distance of its fill from the mid,
/// against the order: a purchase above the mid and a sale below it cost, the reverse earns.
pub proof fn law_costs_are_distances_from_the_mid(
    fill: Decimal,
    mid: Decimal,
    side: IocSide,
    qty: Decimal,
)
    requires
        fill.valid() && mid.valid() && qty.valid(),
    ensures
        cost_against_mid(fill, mid, side, qty) matches Some(c) ==> {
            let away = if side == IocSide::Buy {
                fill@ - mid@
            } else {
                mid@ - fill@
            };
            2 * (decimal::MAX_COEFF * decimal::abs_int(c@ * decimal::one_unit() - qty@ * away)) <= 60
                * (decimal::abs_int(qty@) * decimal::abs_int(away)) + decimal::MAX_COEFF
                * decimal::one_unit()
        },
{
    if let Some(c) = cost_against_mid(fill, mid, side, qty) {
        let (a, b) = if side == IocSide::Buy {
            (fill, mid)
        } else {
            (mid, fill)
        };
        decimal::lemma_difference_close(a, b);
        let d = decimal::difference_of(a, b)->0;
        decimal::lemma_product_error(d, qty);
        vstd::arithmetic::mul::lemma_mul_is_commutative(d@, qty@);
        let away = a@ - b@;
        decimal::lemma_scaled_error(qty@, d@, away, decimal::abs_int(away), c@);
    }
}

/// An order that crosses pays: on a book whose mid lies between its touches, no crossing side
/// of a leg earns anything. One that rests and fills there costs nothing. One that rests and
/// misses is charged the penalty on top of crossing.
pub proof fn law_crossing_costs_and_resting_earns(
    b: BookSnapshot,
    qty: Decimal,
    side: IocSide,
    terms: SideTerms,
)
    requires
        fill_valid(b, qty),
        b.mid.valid(),
        b.bid_price@ <= b.mid@ <= b.ask_price@,
    ensures
        side_cost(None, b.mid, qty, side, terms) == Ok::<Option<Decimal>, OutOfRange>(None),
        ({
            let crossed = side_cost(
                Some(b),
                b.mid,
                qty,
                side,
                SideTerms { post_only: false, ..terms },
            );
            let rested = side_cost(
                Some(b),
                b.mid,
                qty,
                side,
                SideTerms { post_only: true, ..terms },
            );
            let filled = maker::drawn_below(maker::std_rng_word(terms.seed), terms.fill_p);
            &&& crossed matches Ok(Some(c)) ==> c@ >= 0
            &&& filled ==> (rested matches Ok(Some(c)) ==> c@ <= 0)
            &&& !filled ==> (rested matches Ok(Some(c)) ==> crossed matches Ok(Some(d)) && Some(c)
                == decimal::opt_sum(Some(d), bps_of(terms.chase_miss_penalty_bps, terms.notional_usd)))
        }),
{
    law_fills_are_never_better_than_the_touch(b, side, qty);
    if let Ok(Some(p)) = crossing_price(b, side, qty) {
        lemma_fill_is_valid(b, side, qty);
        lemma_cost_sign(p, b.mid, side, qty);
    }
    lemma_cost_sign(resting_price(b, side), b.mid, side, qty);
}

/// The price of a fill is a decimal.
proof fn lemma_fill_is_valid(b: BookSnapshot, side: IocSide, qty: Decimal)
    requires
        fill_valid(b, qty),
        crossing_price(b, side, qty) matches Ok(Some(_)),
    ensures
        crossing_price(b, side, qty)->Ok_0->0.valid(),
{
    if qty@ > touch(b, side).1@ {
        let times = decimal::quotient_value(qty, touch(b, side).1)->0;
        let f = penalty_factor(side, overflow_penalty(times))->0;
        decimal::lemma_product_is_valid(touch(b, side).0, f);
    }
}

/// A cost has the sign of the distance.
proof fn lemma_cost_sign(fill: Decimal, mid: Decimal, side: IocSide, qty: Decimal)
    requires
        fill.valid() && mid.valid() && qty.valid(),
    ensures
        qty@ > 0 ==> (cost_against_mid(fill, mid, side, qty) matches Some(c) ==> match side {
            IocSide::Buy => (fill@ >= mid@ ==> c@ >= 0) && (fill@ <= mid@ ==> c@ <= 0),
            IocSide::Sell => (fill@ <= mid@ ==> c@ >= 0) && (fill@ >= mid@ ==> c@ <= 0),
        }),
{
    if let Some(c) = cost_against_mid(fill, mid, side, qty) {
        let (a, b) = match side {
            IocSide::Buy => (fill, mid),
            IocSide::Sell => (mid, fill),
        };
        let d = decimal::difference_of(a, b)->0;
        decimal::lemma_difference_close(a, b);
        decimal::lemma_product_of_signs(d, qty);
    }
}

/// How far the bound on the width of a book is off.
proof fn lemma_width_error(width: int, w: int, mid: int, r: int, p: int)
    requires
        w > 0,
        mid > 0,
        decimal::MAX_COEFF * decimal::abs_int(w - width) <= 5 * decimal::abs_int(width),
        2 * (decimal::MAX_COEFF * decimal::abs_int(r * mid - w * decimal::one_unit())) <= 10
            * decimal::abs_int(w * decimal::one_unit()) + decimal::MAX_COEFF * mid,
        2 * (decimal::MAX_COEFF * decimal::abs_int(
            p * decimal::one_unit() - r * (10_000 * decimal::one_unit()),
        )) <= 10 * decimal::abs_int(r * (10_000 * decimal::one_unit())) + decimal::MAX_COEFF
            * decimal::one_unit(),
    ensures
        width > 0,
        ({
            let one = decimal::one_unit();
            let slack = 1_000_000 * (width * one) + 20_000 * (decimal::MAX_COEFF * mid);
            let over = 2 * (decimal::MAX_COEFF * (10_000 * (width * one) - 50 * (mid * one)));
            &&& p <= 50 * one ==> over <= slack
            &&& p > 50 * one ==> -over <= slack
        }),
{
    let one = decimal::one_unit();
    let top = decimal::MAX_COEFF as int;
    decimal::lemma_pow10_positive(28);
    let x = w * one;
    let y = width * one;
    assert(x > 0) by (nonlinear_arith)
        requires
            x == w * one,
            w > 0,
            one > 0,
    ;
    let d = decimal::abs_int(w - width);
    assert(decimal::abs_int(x - y) == d * one) by (nonlinear_arith)
        requires
            x == w * one,
            y == width * one,
            d == decimal::abs_int(w - width),
            one > 0,
    {
        assert(x - y == (w - width) * one);
    }
    assert(top * (d * one) <= 5 * y) by (nonlinear_arith)
        requires
            top * d <= 5 * width,
            y == width * one,
            one > 0,
    {
        assert((top * d) * one <= (5 * width) * one);
    }
    // The product, with the common factor taken out.
    let e = decimal::abs_int(p - 10_000 * r);
    assert(decimal::abs_int(p * one - r * (10_000 * one)) == e * one) by (nonlinear_arith)
        requires
            e == decimal::abs_int(p - 10_000 * r),
            one > 0,
    {
        assert(p * one - r * (10_000 * one) == (p - 10_000 * r) * one);
    }
    let ar = decimal::abs_int(r);
    assert(decimal::abs_int(r * (10_000 * one)) == (10_000 * ar) * one) by (nonlinear_arith)
        requires
            ar == decimal::abs_int(r),
            one > 0,
    ;
    assert(2 * (top * e) <= 100_000 * ar + top) by (nonlinear_arith)
        requires
            2 * (top * (e * one)) <= 10 * ((10_000 * ar) * one) + top * one,
            one > 0,
    {
        assert(2 * (top * (e * one)) == (2 * (top * e)) * one);
        assert(10 * ((10_000 * ar) * one) + top * one == (100_000 * ar + top) * one);
    }
    let z = r * mid;
    let v = p * mid;
    assert(decimal::abs_int(v - 10_000 * z) == e * mid) by (nonlinear_arith)
        requires
            v == p * mid,
            z == r * mid,
            e == decimal::abs_int(p - 10_000 * r),
            mid > 0,
    {
        assert(v - 10_000 * z == (p - 10_000 * r) * mid);
    }
    assert(decimal::abs_int(z) == ar * mid) by (nonlinear_arith)
        requires
            z == r * mid,
            ar == decimal::abs_int(r),
            mid > 0,
    ;
    assert(2 * (top * (e * mid)) <= 100_000 * (ar * mid) + top * mid) by (nonlinear_arith)
        requires
            2 * (top * e) <= 100_000 * ar + top,
            mid > 0,
    {
        assert((2 * (top * e)) * mid <= (100_000 * ar + top) * mid);
        assert((2 * (top * e)) * mid == 2 * (top * (e * mid)));
        assert((100_000 * ar + top) * mid == 100_000 * (ar * mid) + top * mid);
    }
    let m = mid * one;
    assert((p <= 50 * one ==> v <= 50 * m) && (p > 50 * one ==> v >= 50 * m)) by (nonlinear_arith)
        requires
            v == p * mid,
            m == mid * one,
            mid > 0,
    {
        assert((50 * one) * mid == 50 * (mid * one));
    }
}

/// The sides of a trade are charged on the books and mids of their own moments. A long spread
/// buys Extended and sells Lighter at its entry, and does the reverse at its exit; a short one
/// the other way round. Extended always crosses; Lighter rests where that is configured, with
/// the odds and a seed of each moment.
pub proof fn law_each_side_is_charged_on_its_own_book(
    cfg: BtConfig,
    leg: OpenLeg,
    exit: TradeExit,
    odds: RestingOdds,
)
    ensures
        settled(cfg, leg, exit, odds) matches Some(t) ==> {
            let long = leg.direction == SpreadDirection::Long;
            let (first, last) = if long {
                (IocSide::Buy, IocSide::Sell)
            } else {
                (IocSide::Sell, IocSide::Buy)
            };
            let crossing = SideTerms {
                post_only: false,
                fill_p: Double { bits: 0 },
                seed: 0,
                chase_miss_penalty_bps: cfg.extended_chase_miss_penalty_bps,
                notional_usd: cfg.trade_notional_usd,
            };
            let ext = (
                side_cost(leg.entry_ext_book, leg.entry_ext_mid, leg.qty, first, crossing),
                side_cost(exit.ext_book, exit.ext_mid, leg.qty, last, crossing),
            );
            let resting = SideTerms {
                post_only: cfg.lighter_post_only,
                fill_p: odds.entry,
                seed: leg.entry_ts_ms ^ 0xA1,
                chase_miss_penalty_bps: cfg.lighter_chase_miss_penalty_bps,
                notional_usd: cfg.trade_notional_usd,
            };
            let lt = (
                side_cost(leg.entry_lt_book, leg.entry_lt_mid, leg.qty, last, resting),
                side_cost(
                    exit.lt_book,
                    exit.lt_mid,
                    leg.qty,
                    first,
                    SideTerms { fill_p: odds.exit, seed: exit.ts_ms ^ 0xA2, ..resting },
                ),
            );
            let fee = |bps: Option<Decimal>| bps_of(bps, cfg.trade_notional_usd);
            let slip = |sides: (
                Result<Option<Decimal>, OutOfRange>,
                Result<Option<Decimal>, OutOfRange>,
            ), flat: Option<Decimal>|
                match sides {
                    (Ok(Some(a)), Ok(Some(b))) => decimal::sum_of(a, b),
                    _ => fee(flat),
                };
            &&& ext.0 is Ok && ext.1 is Ok && lt.0 is Ok && lt.1 is Ok
            &&& Some(t.fees_usd) == decimal::opt_sum(
                decimal::opt_sum(
                    decimal::opt_sum(fee(cfg.extended_taker_fee_bps), fee(cfg.lighter_taker_fee_bps)),
                    slip(ext, cfg.extended_round_trip_slippage_bps),
                ),
                slip(lt, cfg.lighter_round_trip_slippage_bps),
            )
        },
{
}

/// A book is traded against only if it is there on both sides, its ask lies above its bid, and
/// it is no wider than fifty basis points of its mid; and one that meets this clearly is.
pub proof fn law_only_real_books_are_traded(b: BookSnapshot)
    requires
        b.ask_price.valid() && b.bid_price.valid() && b.mid.valid(),
    ensures
        ({
            let width = b.ask_price@ - b.bid_price@;
            let there = b.bid_price@ > 0 && b.ask_price@ > 0 && b.bid_size@ > 0 && b.ask_size@ > 0
                && b.mid@ > 0 && width > 0;
            let one = decimal::one_unit();
            let slack = 1_000_000 * (width * one) + 20_000 * (decimal::MAX_COEFF * b.mid@);
            let over = 2 * (decimal::MAX_COEFF * (10_000 * (width * one) - 50 * (b.mid@ * one)));
            &&& tradable_book(b) == Ok::<bool, OutOfRange>(true) ==> there && over <= slack
            &&& tradable_book(b) == Ok::<bool, OutOfRange>(false) && there ==> -over <= slack
        }),
{
    let one = decimal::one_unit();
    decimal::lemma_pow10_positive(28);
    decimal::lemma_of_parts(10_000, 0);
    decimal::lemma_of_parts(50, 0);
    decimal::lemma_difference_close(b.ask_price, b.bid_price);
    if let Some(w) = decimal::difference_of(b.ask_price, b.bid_price) {
        if b.mid@ > 0 && w@ > 0 {
            decimal::lemma_quotient_error(w, b.mid);
            if let Some(r) = decimal::quotient_of(w, b.mid) {
                let ten = Decimal::of(10_000, 0);
                decimal::lemma_product_error(r, ten);
                if let Some(p) = decimal::product_of(r, ten) {
                    lemma_width_error(b.ask_price@ - b.bid_price@, w@, b.mid@, r@, p@);
                }
            }
        }
    }
}

/// A book quantity, price and size of one side, as a replay holds it.
#[derive(Clone, Copy, Debug)]
pub struct BookLevel {
    pub price: Decimal,
    pub size: Decimal,
}

/// A level, zero where there is none.
pub open spec fn level_or_zero(l: Option<BookLevel>) -> BookLevel {
    match l {
        Some(v) => v,
        None => BookLevel { price: decimal::zero_decimal(), size: decimal::zero_decimal() },
    }
}

/// Both levels have a price, so that the mid lies between them.
pub open spec fn mid_from_book(bid: Option<BookLevel>, ask: Option<BookLevel>) -> bool {
    level_or_zero(bid).price@ > 0 && level_or_zero(ask).price@ > 0
}

/// The snapshot of a book with this mid, and whether both sides have a size.
pub open spec fn snapshot_with(
    bid: Option<BookLevel>,
    ask: Option<BookLevel>,
    mid: Decimal,
) -> (BookSnapshot, bool) {
    let b = level_or_zero(bid);
    let a = level_or_zero(ask);
    (
        BookSnapshot {
            mid,
            bid_price: b.price,
            ask_price: a.price,
            bid_size: b.size,
            ask_size: a.size,
        },
        b.size@ > 0 && a.size@ > 0,
    )
}

/// The price halfway between two others.
pub open spec fn halfway(bid: Decimal, ask: Decimal) -> Option<Decimal> {
    decimal::opt_quotient(decimal::sum_of(bid, ask), Some(Decimal::of(2, 0)))
}

/// The mid between two levels, `None` where a side is missing and the ticker price has to
/// stand in.
pub fn book_mid(bid: Option<BookLevel>, ask: Option<BookLevel>) -> (m: Option<Decimal>)
    requires
        mid_from_book(bid, ask) ==> level_or_zero(bid).price@ + level_or_zero(ask).price@
            <= decimal::max_units(),
    ensures
        m is Some == mid_from_book(bid, ask),
        m is Some ==> m == halfway(level_or_zero(bid).price, level_or_zero(ask).price),
{
    match (bid, ask) {
        (Some(b), Some(a)) => {
            if !b.price.is_positive() || !a.price.is_positive() {
                return None;
            }
            let total = b.price.checked_add(a.price).unwrap();
            let two = Decimal::new(2, 0);
            proof {
                use_type_invariant(&total);
                decimal::lemma_value_bound(total);
                decimal::lemma_pow10_positive(28);
                let u = decimal::one_unit();
                let top = decimal::max_units();
                let t = decimal::abs_int(total@);
                assert(two@ == 2 * u);
                assert(t * u <= top * (2 * u)) by (nonlinear_arith)
                    requires
                        0 <= t <= top,
                        u > 0,
                ;
            }
            total.checked_div(two)
        },
        _ => {
            proof {
                decimal::lemma_of_parts(0, 0);
                decimal::lemma_value_sign(decimal::zero_decimal());
            }
            None
        },
    }
}

/// The snapshot of a book, with the mid of [`book_mid`] or the ticker price in its place.
pub fn book_snapshot(bid: Option<BookLevel>, ask: Option<BookLevel>, mid: Decimal) -> (r: (
    BookSnapshot,
    bool,
))
    ensures
        r == snapshot_with(bid, ask, mid),
{
    let none = BookLevel { price: Decimal::zero(), size: Decimal::zero() };
    let b = match bid {
        Some(l) => l,
        None => none,
    };
    let a = match ask {
        Some(l) => l,
        None => none,
    };
    (
        BookSnapshot {
            mid,
            bid_price: b.price,
            ask_price: a.price,
            bid_size: b.size,
            ask_size: a.size,
        },
        b.size.is_positive() && a.size.is_positive(),
    )
}

/// The minute whose reference price a pair of quotes is held against.
pub fn reference_minute(ext_ts_ms: u64, lt_ts_ms: u64) -> (m: u64)
    ensures
        m == (if ext_ts_ms < lt_ts_ms { ext_ts_ms as int } else { lt_ts_ms as int }) / 60_000
            * 60_000,
        m % 60_000 == 0,
        m <= ext_ts_ms && m <= lt_ts_ms,
        ext_ts_ms < m + 60_000 || lt_ts_ms < m + 60_000,
{
    let ts: u64 = if ext_ts_ms < lt_ts_ms {
        ext_ts_ms
    } else {
        lt_ts_ms
    };
    (ts / 60_000) * 60_000
}

/// Whether a venue's book stays in use next to a reference price: not if its mid strays
/// from the reference, in basis points either way, by more than the cap.
pub fn passes_reference(book_ok: bool, dev_bps: Double, cap_bps: Double) -> (r: bool)
    ensures
        r == (book_ok && !cap_bps.lt(dev_bps.unsigned())),
        !dev_bps.nan() && !cap_bps.nan() ==> (r <==> book_ok && -cap_bps.rank() <= dev_bps.rank()
            <= cap_bps.rank()),
{
    book_ok && !dev_bps.abs().above(cap_bps)
}

/// The whole number that `serde_json` reads from a line under a key: `from_str`, then `get`
/// and `as_u64`. `None` for a line that is no JSON object with such a number.
pub uninterp spec fn json_whole(line: Seq<char>, key: Seq<char>) -> Option<u64>;

/// The string that `serde_json` reads from a line under a key: `from_str`, then `get` and
/// `as_str`. `None` for a line that is no JSON object with such a string.
pub uninterp spec fn json_text(line: Seq<char>, key: Seq<char>) -> Option<Seq<char>>;

/// A text, by its characters.
pub open spec fn text_view(t: Option<String>) -> Option<Seq<char>> {
    match t {
        Some(s) => Some(s@),
        None => None,
    }
}

/// `serde_json::from_str` into a `serde_json::Value`, and the whole number that `get` and
/// `as_u64` find in it under `key`. What is a JSON text, and which of two equal keys counts,
/// is left to serde_json.
#[verifier::external_body]
fn outside_json_whole(line: &str, key: &str) -> (r: Option<u64>)
    ensures
        r == json_whole(line@, key@),
{
    let v: serde_json::Value = serde_json::from_str(line).ok()?;
    v.get(key)?.as_u64()
}

/// `serde_json::from_str` into a `serde_json::Value`, and the string that `get` and `as_str`
/// find in it under `key`. What is a JSON text, and which of two equal keys counts, is left
/// to serde_json.
#[verifier::external_body]
fn outside_json_text(line: &str, key: &str) -> (r: Option<String>)
    ensures
        text_view(r) == json_text(line@, key@),
{
    let v: serde_json::Value = serde_json::from_str(line).ok()?;
    v.get(key)?.as_str().map(String::from)
}

/// One line of reference prices: its time under `ts_ms` and, as texts, the prices under
/// `high` and `low`. A line without a time is no row; a price may be missing.
pub fn reference_row(line: &str) -> (r: Option<(u64, Option<String>, Option<String>)>)
    ensures
        r is Some == json_whole(line@, "ts_ms"@) is Some,
        r matches Some(row) ==> {
            &&& Some(row.0) == json_whole(line@, "ts_ms"@)
            &&& text_view(row.1) == json_text(line@, "high"@)
            &&& text_view(row.2) == json_text(line@, "low"@)
        },
{
    match outside_json_whole(line, "ts_ms") {
        Some(ts_ms) => Some(
            (ts_ms, outside_json_text(line, "high"), outside_json_text(line, "low")),
        ),
        None => None,
    }
}

/// Whether a minute of reference prices is usable: both prices are there and above zero,
/// and the high is not below the low.
pub fn reference_row_usable(high: Option<Double>, low: Option<Double>) -> (r: bool)
    ensures
        r == (high is Some && low is Some && (Double { bits: 0 }).lt(high->0) && (Double {
            bits: 0,
        }).lt(low->0) && low->0.le(high->0)),
{
    match (high, low) {
        (Some(h), Some(l)) => h.above(Double::zero()) && l.above(Double::zero()) && h.at_least(l),
        _ => false,
    }
}

/// Why a replay stopped.
#[derive(Clone, Copy, Debug)]
pub enum BtError {
    NonPositiveExtendedMid,
    Transition(TransitionError),
    OutOfRange,
}

/// The quantity of an entry, or why there is none.
pub open spec fn entry_quantity(notional_usd: Decimal, ext_mid: Decimal) -> Result<Decimal, BtError> {
    if ext_mid@ <= 0 {
        Err(BtError::NonPositiveExtendedMid)
    } else {
        match decimal::quotient_of(notional_usd, ext_mid) {
            Some(q) => Ok(q),
            None => Err(BtError::OutOfRange),
        }
    }
}

pub fn entry_qty(notional_usd: Decimal, ext_mid: Decimal) -> (q: Result<Decimal, BtError>)
    ensures
        q == entry_quantity(notional_usd, ext_mid),
{
    if !ext_mid.is_positive() {
        return Err(BtError::NonPositiveExtendedMid);
    }
    match notional_usd.checked_div(ext_mid) {
        Some(q) => Ok(q),
        None => Err(BtError::OutOfRange),
    }
}

/// One moment of a replay. A book counts as usable once its sizes and its distance to the
/// reference are checked.
#[derive(Clone, Copy, Debug)]
pub struct BtTick {
    pub ts_ms: u64,
    pub ext_ts_ms: u64,
    pub lt_ts_ms: u64,
    pub ext_book: BookSnapshot,
    pub lt_book: BookSnapshot,
    pub ext_book_ok: bool,
    pub lt_book_ok: bool,
}

/// What a replay has decided so far.
#[derive(Clone, Debug)]
pub struct BtSummary {
    pub trades: Vec<TradeRecord>,
    pub samples_committed: u64,
    pub ticks: u64,
    pub buckets: Vec<BucketRecord>,
}

/// The net results added up from the first trade on.
pub open spec fn net_total(trades: Seq<TradeRecord>) -> Option<Decimal>
    decreases trades.len(),
{
    if trades.len() == 0 {
        Some(decimal::zero_decimal())
    } else {
        decimal::opt_sum(net_total(trades.drop_last()), Some(trades.last().net_pnl_usd))
    }
}

/// How many trades made money.
pub open spec fn winners(trades: Seq<TradeRecord>) -> nat
    decreases trades.len(),
{
    if trades.len() == 0 {
        0
    } else {
        winners(trades.drop_last()) + if trades.last().net_pnl_usd@ > 0 {
            1nat
        } else {
            0nat
        }
    }
}

impl BtSummary {
    /// The sum of the net results; `None` if it leaves the range of a decimal.
    pub fn total_net_pnl_usd(&self) -> (t: Option<Decimal>)
        ensures
            t == net_total(self.trades@),
    {
        let mut total: Option<Decimal> = Some(Decimal::zero());
        let mut i: usize = 0;
        while i < self.trades.len()
            invariant
                i <= self.trades.len(),
                total == net_total(self.trades@.take(i as int)),
            decreases self.trades.len() - i,
        {
            assert(self.trades@.take(i + 1).drop_last() =~= self.trades@.take(i as int));
            total = decimal::sum(total, Some(self.trades[i].net_pnl_usd));
            i = i + 1;
        }
        assert(self.trades@.take(i as int) =~= self.trades@);
        total
    }

    /// How many trades made money; the win rate is this over the number of trades.
    pub fn win_count(&self) -> (n: usize)
        ensures
            n == winners(self.trades@),
            n <= self.trades@.len(),
    {
        let mut n: usize = 0;
        let mut i: usize = 0;
        while i < self.trades.len()
            invariant
                i <= self.trades.len(),
                n <= i,
                n == winners(self.trades@.take(i as int)),
            decreases self.trades.len() - i,
        {
            assert(self.trades@.take(i + 1).drop_last() =~= self.trades@.take(i as int));
            if self.trades[i].net_pnl_usd.is_positive() {
                n = n + 1;
            }
            i = i + 1;
        }
        assert(self.trades@.take(i as int) =~= self.trades@);
        n
    }
}

/// The decisions of a replay: signal, position, open trade and what was recorded.
pub struct BtRun {
    pub cfg: BtConfig,
    pub signal: SignalEngine,
    pub machine: PositionMachine,
    pub open: Option<OpenLeg>,
    pub trades: Vec<TradeRecord>,
    pub buckets: Vec<BucketRecord>,
    pub ticks: u64,
    /// Samples of the spread that ticks have committed.
    pub samples: u64,
    /// The tick under way has committed one.
    pub sampled: bool,
}

/// A usable book, nothing otherwise.
pub open spec fn usable(book: BookSnapshot, ok: bool) -> Option<BookSnapshot> {
    if ok {
        Some(book)
    } else {
        None
    }
}

pub open spec fn or_zero(dev: Option<Double>) -> Double {
    match dev {
        Some(d) => d,
        None => Double { bits: 0 },
    }
}

/// The entry that a tick makes.
pub open spec fn opened(
    direction: SpreadDirection,
    tick: BtTick,
    dev: Option<Double>,
    qty: Decimal,
) -> OpenLeg {
    OpenLeg {
        direction,
        entry_ts_ms: tick.ts_ms,
        entry_dev_bps: or_zero(dev),
        entry_ext_mid: tick.ext_book.mid,
        entry_lt_mid: tick.lt_book.mid,
        entry_ext_book: usable(tick.ext_book, tick.ext_book_ok),
        entry_lt_book: usable(tick.lt_book, tick.lt_book_ok),
        qty,
    }
}

/// The exit that a tick makes.
pub open spec fn closing(tick: BtTick, dev: Option<Double>, reason: ExitReason) -> TradeExit {
    TradeExit {
        ts_ms: tick.ts_ms,
        dev_bps: or_zero(dev),
        ext_mid: tick.ext_book.mid,
        lt_mid: tick.lt_book.mid,
        ext_book: usable(tick.ext_book, tick.ext_book_ok),
        lt_book: usable(tick.lt_book, tick.lt_book_ok),
        reason,
    }
}

/// A replay is either flat, with no trade open, or holds exactly the open trade.
pub open spec fn run_consistent(r: BtRun) -> bool {
    match r.open {
        None => r.machine.phase == Phase::Flat && r.machine.position is None,
        Some(leg) => r.machine == state::held_at(
            leg.direction,
            r.cfg.trade_notional_usd,
            leg.qty,
            leg.entry_ts_ms,
        ) && leg.qty.valid(),
    }
}

/// Every tick commits at most one sample, and every sample has its record where records are
/// kept.
pub open spec fn samples_accounted(r: BtRun) -> bool {
    &&& r.samples <= r.ticks
    &&& r.ticks > 0 && !r.sampled ==> r.samples < r.ticks
    &&& r.buckets@.len() == if r.cfg.record_buckets {
        r.samples as nat
    } else {
        0
    }
}

/// Up to `now` there was one position at a time: every trade ends no earlier than it began
/// and no later than the next one begins.
pub open spec fn in_time_order(r: BtRun, now: u64) -> bool {
    &&& forall|i: int|
        0 <= i < r.trades@.len() ==> (#[trigger] r.trades@[i]).entry_ts_ms
            <= r.trades@[i].exit_ts_ms <= now
    &&& forall|i: int, j: int|
        0 <= i < j < r.trades@.len() ==> (#[trigger] r.trades@[i]).exit_ts_ms <= (
        #[trigger] r.trades@[j]).entry_ts_ms
    &&& r.open matches Some(leg) ==> {
        &&& leg.entry_ts_ms <= now
        &&& forall|i: int|
            0 <= i < r.trades@.len() ==> (#[trigger] r.trades@[i]).exit_ts_ms <= leg.entry_ts_ms
    }
}

impl BtRun {
    pub open spec fn wf(self) -> bool {
        run_consistent(self) && samples_accounted(self)
    }

    /// A replay that has seen nothing.
    pub fn new(cfg: BtConfig) -> (r: BtRun)
        ensures
            r.wf(),
            r.cfg == cfg,
            r.signal == (SignalEngine { cfg: cfg.signal, breach: None }),
            r.machine == state::flat_at(0),
            r.open is None,
            r.trades@.len() == 0,
            r.buckets@.len() == 0,
            r.ticks == 0,
            r.samples == 0,
            !r.sampled,
            in_time_order(r, 0),
    {
        let signal = SignalEngine::new(cfg.signal);
        BtRun {
            cfg,
            signal,
            machine: PositionMachine::new(),
            open: None,
            trades: Vec::new(),
            buckets: Vec::new(),
            ticks: 0,
            samples: 0,
            sampled: false,
        }
    }

    /// Counts a tick.
    pub fn begin_tick(&mut self)
        requires
            old(self).wf(),
            old(self).ticks < u64::MAX,
        ensures
            final(self).wf(),
            *final(self) == (BtRun {
                ticks: (old(self).ticks + 1) as u64,
                sampled: false,
                ..*old(self)
            }),
    {
        self.ticks = self.ticks + 1;
        self.sampled = false;
    }

    /// Whether a tick is evaluated: if it committed a sample, or a position is open.
    pub fn should_evaluate(&self, committed: bool) -> (r: bool)
        requires
            self.wf(),
        ensures
            r == (committed || self.open is Some),
    {
        committed || self.machine.summary().is_some()
    }

    /// Counts the sample that the tick under way committed, and records its bucket where
    /// records are kept. The spread, the mean and the deviation are those after the commit.
    pub fn record_bucket(
        &mut self,
        tick: &BtTick,
        spread_bps: Double,
        rolling_mean_bps: Double,
        dev_bps: Double,
    )
        requires
            old(self).wf(),
            old(self).ticks > 0,
            !old(self).sampled,
            old(self).cfg.record_buckets ==> old(self).cfg.spread.bucket_ms > 0,
        ensures
            final(self).wf(),
            ({
                let o = *old(self);
                let n = *final(self);
                let ts = if tick.ext_ts_ms < tick.lt_ts_ms { tick.ext_ts_ms } else { tick.lt_ts_ms };
                let record = BucketRecord {
                    bucket_ts_ms: spread::bucket_start(o.cfg.spread.bucket_ms, ts) as u64,
                    ext_ts_ms: tick.ext_ts_ms,
                    lt_ts_ms: tick.lt_ts_ms,
                    ext_mid: tick.ext_book.mid,
                    lt_mid: tick.lt_book.mid,
                    spread_bps,
                    rolling_mean_bps,
                    dev_bps,
                };
                &&& n.buckets@ == if o.cfg.record_buckets {
                    o.buckets@.push(record)
                } else {
                    o.buckets@
                }
                &&& n.cfg == o.cfg
                &&& n.signal == o.signal
                &&& n.machine == o.machine
                &&& n.open == o.open
                &&& n.trades == o.trades
                &&& n.ticks == o.ticks
                &&& n.samples == o.samples + 1
                &&& n.sampled
            }),
    {
        self.samples = self.samples + 1;
        self.sampled = true;
        if self.cfg.record_buckets {
            let ts: u64 = if tick.ext_ts_ms < tick.lt_ts_ms {
                tick.ext_ts_ms
            } else {
                tick.lt_ts_ms
            };
            let len: u64 = self.cfg.spread.bucket_ms;
            proof {
                vstd::arithmetic::div_mod::lemma_fundamental_div_mod(ts as int, len as int);
                vstd::arithmetic::mul::lemma_mul_is_commutative(ts as int / len as int, len as int);
                vstd::arithmetic::mul::lemma_mul_nonnegative(ts as int / len as int, len as int);
            }
            let bucket_ts_ms: u64 = (ts / len) * len;
            self.buckets.push(
                BucketRecord {
                    bucket_ts_ms,
                    ext_ts_ms: tick.ext_ts_ms,
                    lt_ts_ms: tick.lt_ts_ms,
                    ext_mid: tick.ext_book.mid,
                    lt_mid: tick.lt_book.mid,
                    spread_bps,
                    rolling_mean_bps,
                    dev_bps,
                },
            );
        }
    }

    /// Evaluates a tick: asks the signal, and enters or exits as it says. `dev` is the
    /// deviation of the spread from its mean; `odds` matter only where Lighter orders
    /// rest.
    pub fn evaluate(
        &mut self,
        tick: &BtTick,
        dev: Option<Double>,
        is_warm: bool,
        odds: RestingOdds,
    ) -> (r: Result<Decision, BtError>)
        requires
            old(self).wf(),
        ensures
            final(self).trades@.len() >= old(self).trades@.len(),
            old(self).trades@ =~= final(self).trades@.take(old(self).trades@.len() as int),
            r matches Ok(Decision::Hold) ==> final(self).open == old(self).open && final(self).trades@
                == old(self).trades@,
            r matches Ok(Decision::Enter(dir)) ==> (final(self).open matches Some(leg) && leg.direction
                == dir && leg.entry_ts_ms == tick.ts_ms && leg.entry_ext_mid == tick.ext_book.mid
                && leg.entry_lt_mid == tick.lt_book.mid),
            r matches Ok(Decision::Exit(reason)) ==> final(self).open is None && final(self).trades@.len()
                == old(self).trades@.len() + 1 && final(self).trades@.last().exit_reason == reason
                && final(self).trades@.last().exit_ts_ms == tick.ts_ms && final(self).trades@.last().qty
                == old(self).open->0.qty,
            ({
                let o = *old(self);
                let n = *final(self);
                let s = signal::signal_step(
                    o.signal.cfg,
                    o.signal.breach,
                    tick.ts_ms,
                    dev,
                    is_warm,
                    state::summary_of(o.machine),
                );
                &&& n.wf()
                &&& n.cfg == o.cfg
                &&& n.buckets == o.buckets
                &&& n.ticks == o.ticks
                &&& n.samples == o.samples
                &&& n.sampled == o.sampled
                &&& in_time_order(o, tick.ts_ms) ==> in_time_order(n, tick.ts_ms)
                &&& n.signal == (SignalEngine { cfg: o.signal.cfg, breach: s.1 })
                &&& r matches Ok(d) ==> d == s.0
                &&& match s.0 {
                    Decision::Hold => {
                        &&& r is Ok
                        &&& n.machine == o.machine
                        &&& n.open == o.open
                        &&& n.trades@ == o.trades@
                    },
                    Decision::Enter(dir) => {
                        &&& n.trades@ == o.trades@
                        &&& match entry_quantity(o.cfg.trade_notional_usd, tick.ext_book.mid) {
                            Err(e) => r == Err::<Decision, BtError>(e) && n.machine == o.machine
                                && n.open == o.open,
                            Ok(qty) => {
                                &&& r is Ok
                                &&& n.machine == state::held_at(
                                    dir,
                                    o.cfg.trade_notional_usd,
                                    qty,
                                    tick.ts_ms,
                                )
                                &&& n.open == Some(opened(dir, *tick, dev, qty))
                            },
                        }
                    },
                    Decision::Exit(reason) => {
                        &&& o.open is Some
                        &&& n.open is None
                        &&& n.machine == state::flat_at(tick.ts_ms)
                        &&& if o.open->0.qty@ == 0 {
                            &&& r matches Err(BtError::Transition(e)) && e.phase == Phase::Flat
                                && e.event_kind@ == "LighterExitFilled"@
                            &&& n.trades@ == o.trades@
                        } else {
                            match settled(o.cfg, o.open->0, closing(*tick, dev, reason), odds) {
                                None => r == Err::<Decision, BtError>(BtError::OutOfRange)
                                    && n.trades@ == o.trades@,
                                Some(t) => r is Ok && n.trades@ == o.trades@.push(t),
                            }
                        }
                    },
                }
            }),
    {
        let position = self.machine.summary();
        let decision = self.signal.decide(tick.ts_ms, dev, is_warm, position);
        let dev_now = match dev {
            Some(d) => d,
            None => Double::zero(),
        };
        let ext_book = if tick.ext_book_ok {
            Some(tick.ext_book)
        } else {
            None
        };
        let lt_book = if tick.lt_book_ok {
            Some(tick.lt_book)
        } else {
            None
        };
        match decision {
            Decision::Hold => {},
            Decision::Enter(dir) => {
                let qty = match entry_qty(self.cfg.trade_notional_usd, tick.ext_book.mid) {
                    Ok(q) => q,
                    Err(e) => {
                        return Err(e);
                    },
                };
                proof {
                    use_type_invariant(&qty);
                    decimal::lemma_of_parts(0, 0);
                    decimal::lemma_value_sign(decimal::zero_decimal());
                    decimal::lemma_value_bound(qty);
                }
                let signal = Event::EntrySignal {
                    direction: dir,
                    notional_usd: self.cfg.trade_notional_usd,
                };
                let _ = self.machine.apply(tick.ts_ms, signal);
                let _ = self.machine.apply(tick.ts_ms, Event::ExtendedFilled { qty });
                let _ = self.machine.apply(tick.ts_ms, Event::LighterFilled { qty });
                self.open = Some(
                    OpenLeg {
                        direction: dir,
                        entry_ts_ms: tick.ts_ms,
                        entry_dev_bps: dev_now,
                        entry_ext_mid: tick.ext_book.mid,
                        entry_lt_mid: tick.lt_book.mid,
                        entry_ext_book: ext_book,
                        entry_lt_book: lt_book,
                        qty,
                    },
                );
            },
            Decision::Exit(reason) => {
                let leg = self.open.unwrap();
                let qty = leg.qty;
                proof {
                    state::lemma_drained_by_itself(qty);
                    decimal::lemma_pow10_positive(28);
                    let u = decimal::one_unit();
                    assert(decimal::MAX_COEFF * u >= 0) by (nonlinear_arith)
                        requires
                            u > 0,
                            decimal::MAX_COEFF >= 0,
                    ;
                }
                self.open = None;
                let _ = self.machine.apply(tick.ts_ms, Event::ExitSignal { reason });
                let _ = self.machine.apply(tick.ts_ms, Event::ExtendedExitFilled { qty });
                match self.machine.apply(tick.ts_ms, Event::LighterExitFilled { qty }) {
                    Ok(()) => {},
                    Err(e) => {
                        return Err(BtError::Transition(e));
                    },
                }
                let exit = TradeExit {
                    ts_ms: tick.ts_ms,
                    dev_bps: dev_now,
                    ext_mid: tick.ext_book.mid,
                    lt_mid: tick.lt_book.mid,
                    ext_book,
                    lt_book,
                    reason,
                };
                match settle_trade(&self.cfg, &leg, &exit, odds) {
                    Some(t) => {
                        self.trades.push(t);
                    },
                    None => {
                        return Err(BtError::OutOfRange);
                    },
                }
            },
        }
        Ok(decision)
    }

    /// The result of the replay.
    pub fn into_summary(self) -> (s: BtSummary)
        requires
            self.wf(),
        ensures
            s.trades@ == self.trades@,
            s.buckets@ == self.buckets@,
            s.ticks == self.ticks,
            s.samples_committed == self.samples,
            s.samples_committed <= s.ticks,
            self.cfg.record_buckets ==> s.buckets@.len() == s.samples_committed,
    {
        BtSummary {
            trades: self.trades,
            samples_committed: self.samples,
            ticks: self.ticks,
            buckets: self.buckets,
        }
    }
}

/// Time order is kept between ticks: what was in order at one time is so at any later one.
pub proof fn law_time_order_lasts(r: BtRun, now: u64, later: u64)
    requires
        in_time_order(r, now),
        now <= later,
    ensures
        in_time_order(r, later),
{
}

/// The quantity of an entry is the notional over Extended's mid, and an entry needs that mid
/// to be above zero.
pub proof fn law_entries_buy_the_notional(notional_usd: Decimal, ext_mid: Decimal)
    requires
        notional_usd.valid() && ext_mid.valid(),
    ensures
        ext_mid@ <= 0 <==> entry_quantity(notional_usd, ext_mid) == Err::<Decimal, BtError>(
            BtError::NonPositiveExtendedMid,
        ),
        entry_quantity(notional_usd, ext_mid) matches Ok(q) ==> 2 * (decimal::MAX_COEFF
            * decimal::abs_int(q@ * ext_mid@ - notional_usd@ * decimal::one_unit())) <= 10
            * decimal::abs_int(notional_usd@ * decimal::one_unit()) + decimal::MAX_COEFF * ext_mid@,
{
    if ext_mid@ > 0 {
        decimal::lemma_quotient_error(notional_usd, ext_mid);
    }
}

/// An entry and an exit keep what the tick showed: its time, its mids and deviation, and its
/// books as far as they are usable, each on its own venue.
pub proof fn law_trades_keep_their_ticks(
    direction: SpreadDirection,
    tick: BtTick,
    dev: Option<Double>,
    qty: Decimal,
    reason: ExitReason,
)
    ensures
        ({
            let o = opened(direction, tick, dev, qty);
            let c = closing(tick, dev, reason);
            let d = if dev is Some { dev->0 } else { Double { bits: 0 } };
            let ext = if tick.ext_book_ok { Some(tick.ext_book) } else { None };
            let lt = if tick.lt_book_ok { Some(tick.lt_book) } else { None };
            &&& o.direction == direction && o.qty == qty && c.reason == reason
            &&& o.entry_ts_ms == tick.ts_ms && c.ts_ms == tick.ts_ms
            &&& o.entry_dev_bps == d && c.dev_bps == d
            &&& o.entry_ext_mid == tick.ext_book.mid && c.ext_mid == tick.ext_book.mid
            &&& o.entry_lt_mid == tick.lt_book.mid && c.lt_mid == tick.lt_book.mid
            &&& o.entry_ext_book == ext && c.ext_book == ext
            &&& o.entry_lt_book == lt && c.lt_book == lt
        }),
{
}

/// Every trade counts in the result of a replay, whatever it brought, and it is a winner
/// exactly if it netted more than zero.
pub proof fn law_results_count_every_trade(trades: Seq<TradeRecord>, t: TradeRecord)
    ensures
        net_total(Seq::empty()) == Some(decimal::zero_decimal()),
        winners(Seq::empty()) == 0,
        net_total(trades) matches Some(n) ==> net_total(trades.push(t)) == decimal::sum_of(
            n,
            t.net_pnl_usd,
        ),
        winners(trades.push(t)) == winners(trades) + (if t.net_pnl_usd@ > 0 { 1nat } else { 0nat }),
{
    assert(trades.push(t).drop_last() =~= trades);
    assert(trades.push(t).last() == t);
}

/// A crossing order that takes up more than the touch pays one basis point of the price for
/// each whole multiple of the touch beyond the first: a purchase on top, a sale less.
pub proof fn law_the_penalty_is_a_basis_point_per_multiple(
    b: BookSnapshot,
    side: IocSide,
    qty: Decimal,
)
    requires
        fill_valid(b, qty),
    ensures
        crossing_price(b, side, qty) matches Ok(Some(p)) ==> {
            let price = if side == IocSide::Buy { b.ask_price@ } else { b.bid_price@ };
            let size = if side == IocSide::Buy { b.ask_size } else { b.bid_size };
            let times = decimal::quotient_value(qty, size)->0 / decimal::one_unit();
            let k = if qty@ <= size@ || times < 2 {
                0
            } else {
                times - 1
            };
            let factor = if side == IocSide::Buy { 10_000 + k } else { 10_000 - k };
            decimal::MAX_COEFF * decimal::abs_int(10_000 * p@ - price * factor) <= 20_000 * (price * (
            10_000 + k)) + 10_000 * decimal::MAX_COEFF
        },
{
    if let Ok(Some(p)) = crossing_price(b, side, qty) {
        lemma_fill_is_touch_times_factor(b, side, qty);
        let k = multiples_beyond(b, side, qty);
        let price = touch(b, side).0;
        decimal::lemma_of_parts(1, 0);
        decimal::lemma_of_parts(k, 4);
        let one = decimal::one_unit();
        let pen = Decimal::of(k, 4);
        let f = penalty_factor(side, pen)->0;
        decimal::lemma_pow10_adds(4, 24);
        reveal_with_fuel(decimal::pow10, 6);
        decimal::lemma_pow10_positive(24);
        decimal::lemma_pow10_positive(28);
        let w = decimal::pow10(24);
        assert(one == 10_000 * w);
        assert(pen@ == k * w);
        match side {
            IocSide::Buy => {
                decimal::lemma_sum_error(Decimal::of(1, 0), pen);
            },
            IocSide::Sell => {
                decimal::lemma_difference_close(Decimal::of(1, 0), pen);
            },
        }
        let signed = if side == IocSide::Buy { 10_000 + k } else { 10_000 - k };
        assert(1 * one == 10_000 * w);
        assert((10_000 + k) * w == 10_000 * w + k * w && (10_000 - k) * w == 10_000 * w - k * w)
            by (nonlinear_arith);
        decimal::lemma_product_error(price, f);
        let v = worsened(price, side, pen)->0@;
        lemma_penalty_error(price@, signed, k, f@, v, w, one);
    }
}

/// How the roundings of a penalty add up.
proof fn lemma_penalty_error(price: int, signed: int, k: int, f: int, v: int, w: int, one: int)
    requires
        one == decimal::one_unit(),
        one == 10_000 * w,
        w > 0,
        price > 0,
        k >= 0,
        signed == 10_000 + k || signed == 10_000 - k,
        decimal::MAX_COEFF * decimal::abs_int(f - signed * w) <= 5 * decimal::abs_int(signed * w),
        2 * (decimal::MAX_COEFF * decimal::abs_int(v * one - price * f)) <= 10 * decimal::abs_int(
            price * f,
        ) + decimal::MAX_COEFF * one,
    ensures
        decimal::MAX_COEFF * decimal::abs_int(10_000 * v - price * signed) <= 20_000 * (price * (
        10_000 + k)) + 10_000 * decimal::MAX_COEFF,
{
    let top = decimal::MAX_COEFF as int;
    let g = signed * w;
    let ag = decimal::abs_int(g);
    let big = 10_000 + k;
    assert(ag <= big * w) by (nonlinear_arith)
        requires
            ag == decimal::abs_int(g),
            g == signed * w,
            -big <= signed <= big,
            w > 0,
    ;
    let d = decimal::abs_int(f - g);
    let af = decimal::abs_int(f);
    assert(af <= 2 * (big * w));
    assert(decimal::abs_int(price * f) == price * af) by (nonlinear_arith)
        requires
            af == decimal::abs_int(f),
            price > 0,
    ;
    assert(decimal::abs_int(price * f - price * g) == price * d) by (nonlinear_arith)
        requires
            d == decimal::abs_int(f - g),
            price > 0,
    {
        assert(price * f - price * g == price * (f - g));
    }
    assert(top * (price * d) <= 5 * (price * (big * w))) by (nonlinear_arith)
        requires
            top * d <= 5 * (big * w),
            price > 0,
    {
        assert(price * (top * d) <= price * (5 * (big * w)));
    }
    assert(price * af <= 2 * (price * (big * w))) by (nonlinear_arith)
        requires
            af <= 2 * (big * w),
            price > 0,
    ;
    let x = 10_000 * v - price * signed;
    let ax = decimal::abs_int(x);
    assert(v * one - price * g == x * w) by (nonlinear_arith)
        requires
            one == 10_000 * w,
            g == signed * w,
            x == 10_000 * v - price * signed,
    ;
    assert(decimal::abs_int(x * w) == ax * w) by (nonlinear_arith)
        requires
            ax == decimal::abs_int(x),
            w > 0,
    ;
    let y = price * big;
    assert(price * (big * w) == y * w) by (nonlinear_arith)
        requires
            y == price * big,
    ;
    assert(top * (ax * w) <= 15 * (y * w) + top * (5_000 * w));
    assert(top * ax <= 15 * y + top * 5_000) by (nonlinear_arith)
        requires
            top * (ax * w) <= 15 * (y * w) + top * (5_000 * w),
            w > 0,
    {
        assert(top * (ax * w) == (top * ax) * w);
        assert(15 * (y * w) + top * (5_000 * w) == (15 * y + top * 5_000) * w);
    }
    assert(y >= 0) by (nonlinear_arith)
        requires
            y == price * big,
            price > 0,
            big > 0,
    ;
}

/// The mid of two prices above zero lies halfway between them.
pub proof fn law_mids_lie_halfway(bid: Decimal, ask: Decimal)
    requires
        bid.valid() && ask.valid(),
        bid@ > 0 && ask@ > 0,
    ensures
        halfway(bid, ask) matches Some(m) ==> decimal::MAX_COEFF * decimal::abs_int(
            2 * m@ - (bid@ + ask@),
        ) <= 20 * (bid@ + ask@) + decimal::MAX_COEFF,
{
    if let Some(t) = decimal::sum_of(bid, ask) {
        let two = Decimal::of(2, 0);
        decimal::lemma_sum_error(bid, ask);
        decimal::lemma_of_parts(2, 0);
        decimal::lemma_pow10_positive(28);
        let one = decimal::one_unit();
        if let Some(m) = decimal::quotient_of(t, two) {
            decimal::lemma_quotient_error(t, two);
            let x = decimal::abs_int(2 * m@ - t@);
            let top = decimal::MAX_COEFF as int;
            let at = decimal::abs_int(t@);
            assert(two@ == 2 * one);
            assert(decimal::abs_int(m@ * (2 * one) - t@ * one) == x * one) by (nonlinear_arith)
                requires
                    x == decimal::abs_int(2 * m@ - t@),
                    one > 0,
            {
                assert(m@ * (2 * one) - t@ * one == (2 * m@ - t@) * one);
            }
            assert(decimal::abs_int(t@ * one) == at * one) by (nonlinear_arith)
                requires
                    at == decimal::abs_int(t@),
                    one > 0,
            ;
            assert(top * x <= 5 * at + top) by (nonlinear_arith)
                requires
                    2 * (top * (x * one)) <= 10 * (at * one) + top * (2 * one),
                    one > 0,
            {
                assert(2 * (top * (x * one)) == (2 * (top * x)) * one);
                assert(10 * (at * one) + top * (2 * one) == (2 * (5 * at + top)) * one);
            }
        }
    }
}

/// A book is made of its levels, bid from bid and ask from ask, around the mid that it is
/// given, and is in use exactly if both sides hold something. A missing level counts as zero.
pub proof fn law_books_are_made_of_their_levels(
    bid: Option<BookLevel>,
    ask: Option<BookLevel>,
    mid: Decimal,
)
    ensures
        ({
            let (b, ok) = snapshot_with(bid, ask, mid);
            &&& b.mid == mid
            &&& bid matches Some(l) ==> b.bid_price == l.price && b.bid_size == l.size
            &&& ask matches Some(l) ==> b.ask_price == l.price && b.ask_size == l.size
            &&& bid is None ==> b.bid_price@ == 0 && b.bid_size@ == 0
            &&& ask is None ==> b.ask_price@ == 0 && b.ask_size@ == 0
            &&& ok <==> bid is Some && ask is Some && bid->0.size@ > 0 && ask->0.size@ > 0
            &&& mid_from_book(bid, ask) <==> bid is Some && ask is Some && bid->0.price@ > 0
                && ask->0.price@ > 0
        }),
{
    decimal::lemma_of_parts(0, 0);
    assert(decimal::zero_decimal()@ == 0) by {
        assert(0 * decimal::pow10(28) == 0);
    }
}

/// A side is charged for its fill against the mid that it is given. An order that crosses
/// fills at the price of its size; one that rests and is hit fills at its own touch, the bid
/// for a purchase and the ask for a sale. On a book that is not traded, or for no quantity,
/// there is no charge to tell.
pub proof fn law_sides_are_charged_at_their_fill(
    b: BookSnapshot,
    mid: Decimal,
    qty: Decimal,
    side: IocSide,
    terms: SideTerms,
)
    ensures
        ({
            let cost = side_cost(Some(b), mid, qty, side, terms);
            let filled = maker::drawn_below(maker::std_rng_word(terms.seed), terms.fill_p);
            let touch = if side == IocSide::Buy { b.bid_price } else { b.ask_price };
            let depth = if side == IocSide::Buy { b.bid_size } else { b.ask_size };
            let traded = tradable_book(b) == Ok::<bool, OutOfRange>(true);
            &&& !terms.post_only ==> (cost matches Ok(Some(c)) ==> {
                &&& crossing_price(b, side, qty) matches Ok(Some(p))
                &&& Some(c) == cost_against_mid(p, mid, side, qty)
            })
            &&& terms.post_only && filled ==> (cost matches Ok(Some(c)) ==> Some(c)
                == cost_against_mid(touch, mid, side, qty))
            &&& terms.post_only ==> (cost matches Ok(Some(_)) ==> traded && qty@ > 0 && depth@ > 0)
            &&& terms.post_only && filled && traded && qty@ > 0 && depth@ > 0 ==> !(cost
                == Ok::<Option<Decimal>, OutOfRange>(None))
            &&& maker_outcome(b, side, qty, terms.fill_p, terms.seed) matches Ok(Some(o)) ==> traded
                && qty@ > 0 && depth@ > 0 && o.fill_p == terms.fill_p && o.sampled_fill == filled
            &&& traded && qty@ > 0 && depth@ > 0 ==> (maker_outcome(
                b,
                side,
                qty,
                terms.fill_p,
                terms.seed,
            ) matches Ok(Some(_)))
        }),
{
}

/// A leg is charged for both of its sides where both can be told, and flat otherwise: the
/// rate of the round trip on the notional.
pub proof fn law_legs_pay_both_sides_or_the_flat_rate(
    leg: LegTrip,
    flat_bps: Option<Decimal>,
    entry_terms: SideTerms,
    exit_terms: SideTerms,
)
    ensures
        ({
            let a = side_cost(
                leg.entry_book,
                leg.entry_mid,
                leg.qty,
                leg.entry_side,
                entry_terms,
            );
            let z = side_cost(leg.exit_book, leg.exit_mid, leg.qty, leg.exit_side, exit_terms);
            let slip = leg_slippage(leg, flat_bps, entry_terms, exit_terms);
            &&& a is Err || z is Err ==> slip is Err
            &&& a matches Ok(Some(x)) ==> (z matches Ok(Some(y)) ==> (slip matches Ok(s) ==> Some(s)
                == decimal::sum_of(x, y)))
            &&& a is Ok && z is Ok && (a->Ok_0 is None || z->Ok_0 is None) ==> (slip matches Ok(s)
                ==> Some(s) == bps_of(flat_bps, entry_terms.notional_usd))
        }),
{
}

} // verus!
