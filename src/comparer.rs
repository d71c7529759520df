use crate::common::{ExchangeName, Ticker};
use vstd::prelude::*;

verus! {

/// A non-negative fraction `numer / denom`. A `denom` of zero stands for a
/// gap measured against a price of zero, which is larger than any margin.
#[derive(PartialEq, Eq, Structural, Clone, Copy, Debug)]
pub struct Ratio {
    pub numer: u64,
    pub denom: u64,
}

/// What the comparer is configured with.
#[derive(PartialEq, Eq, Structural, Clone, Copy, Debug)]
pub struct ComparerConfig {
    /// The largest fractional gap that is not yet an arbitrage: a gap must
    /// exceed it strictly. A zero `denom` makes the margin infinite.
    pub percent_diff_margin: Ratio,
}

/// Compares the prices that several exchanges report for the same markets.
pub struct Comparer {
    config: ComparerConfig,
}

/// Buying on `from` and selling on `to` gains `percent_diff` of the price on `from`.
#[derive(PartialEq, Eq, Structural, Clone, Copy, Debug)]
pub struct Arbitrage {
    pub from: ExchangeName,
    pub to: ExchangeName,
    pub percent_diff: Ratio,
}

/// A ticker together with the exchange that reported it.
#[derive(PartialEq, Eq, Structural, Clone, Copy, Debug)]
pub struct TickerWithName {
    pub ticker: Ticker,
    pub name: ExchangeName,
}

/// Whether `(high - low) / low` exceeds `margin` strictly, with a price gap
/// over a zero `low` exceeding every margin.
pub open spec fn gap_exceeds(high: int, low: int, margin: Ratio) -> bool {
    (high - low) * margin.denom > margin.numer * low
}

/// The arbitrage that two quotes of one market show, if any: from the lower
/// price to the higher, where the gap exceeds `margin`. On equal prices the
/// first quote counts as the lower one.
pub open spec fn pair_signal(a: TickerWithName, b: TickerWithName, margin: Ratio) -> Option<
    Arbitrage,
> {
    let high = if a.ticker.last > b.ticker.last { a } else { b };
    let low = if a.ticker.last > b.ticker.last { b } else { a };
    if gap_exceeds(high.ticker.last as int, low.ticker.last as int, margin) {
        Some(
            Arbitrage {
                from: low.name,
                to: high.name,
                percent_diff: Ratio {
                    numer: (high.ticker.last - low.ticker.last) as u64,
                    denom: low.ticker.last,
                },
            },
        )
    } else {
        None
    }
}

pub open spec fn option_seq(o: Option<Arbitrage>) -> Seq<Arbitrage> {
    match o {
        Some(a) => seq![a],
        None => Seq::empty(),
    }
}

/// The signals of the pairs `(i, j)` with `i <= j < end`, in order of `j`.
pub open spec fn row_signals(q: Seq<TickerWithName>, i: int, end: int, margin: Ratio) -> Seq<
    Arbitrage,
>
    decreases end - i,
{
    if end <= i {
        Seq::empty()
    } else {
        row_signals(q, i, end - 1, margin) + option_seq(pair_signal(q[i], q[end - 1], margin))
    }
}

/// The signals of all pairs `(i, j)` with `i < end` and `i <= j`, in order of
/// `i`, then of `j`.
pub open spec fn market_signals(q: Seq<TickerWithName>, end: int, margin: Ratio) -> Seq<Arbitrage>
    decreases end,
{
    if end <= 0 {
        Seq::empty()
    } else {
        market_signals(q, end - 1, margin) + row_signals(q, end - 1, q.len() as int, margin)
    }
}

/// The signals of the first `end` markets, market after market.
pub open spec fn all_signals(qs: Seq<Vec<TickerWithName>>, end: int, margin: Ratio) -> Seq<
    Arbitrage,
>
    decreases end,
{
    if end <= 0 {
        Seq::empty()
    } else {
        all_signals(qs, end - 1, margin) + market_signals(
            qs[end - 1]@,
            qs[end - 1]@.len() as int,
            margin,
        )
    }
}

/// The quote that exchange `name` gives for a market, from the tickers it
/// reported for it: the first one, if any.
pub fn first_quote(name: ExchangeName, tickers: &Vec<Ticker>) -> (r: Option<TickerWithName>)
    ensures
        tickers@.len() == 0 ==> r is None,
        tickers@.len() > 0 ==> r == Some(TickerWithName { ticker: tickers@[0], name }),
{
    if tickers.len() == 0 {
        None
    } else {
        Some(TickerWithName { ticker: tickers[0], name })
    }
}

proof fn lemma_product_fits_u128(x: u64, y: u64)
    ensures
        (x as int) * (y as int) <= u128::MAX,
{
    assert((x as int) * (y as int) <= (u64::MAX as int) * (u64::MAX as int)) by (nonlinear_arith)
        requires
            x <= u64::MAX,
            y <= u64::MAX,
            0 <= x,
            0 <= y,
    ;
}

/// The arbitrage that two quotes of one market show, if any.
pub fn compare_pair(a: TickerWithName, b: TickerWithName, margin: Ratio) -> (r: Option<Arbitrage>)
    ensures
        r == pair_signal(a, b, margin),
{
    let high = if a.ticker.last > b.ticker.last { a } else { b };
    let low = if a.ticker.last > b.ticker.last { b } else { a };
    let gap: u64 = high.ticker.last - low.ticker.last;
    proof {
        lemma_product_fits_u128(gap, margin.denom);
        lemma_product_fits_u128(margin.numer, low.ticker.last);
    }
    let lhs: u128 = (gap as u128) * (margin.denom as u128);
    let rhs: u128 = (margin.numer as u128) * (low.ticker.last as u128);
    if lhs > rhs {
        Some(
            Arbitrage {
                from: low.name,
                to: high.name,
                percent_diff: Ratio { numer: gap, denom: low.ticker.last },
            },
        )
    } else {
        None
    }
}

/// The arbitrage signals among the quotes of one market: every pair `(i, j)`
/// with `i <= j`, in that order.
pub fn compare_market(quotes: &Vec<TickerWithName>, margin: Ratio) -> (r: Vec<Arbitrage>)
    ensures
        r@ == market_signals(quotes@, quotes@.len() as int, margin),
{
    let mut res: Vec<Arbitrage> = Vec::new();
    let n = quotes.len();
    let mut i: usize = 0;
    while i < n
        invariant
            n == quotes@.len(),
            0 <= i <= n,
            res@ == market_signals(quotes@, i as int, margin),
        decreases n - i,
    {
        let mut j: usize = i;
        while j < n
            invariant
                n == quotes@.len(),
                0 <= i < n,
                i <= j <= n,
                res@ == market_signals(quotes@, i as int, margin) + row_signals(
                    quotes@,
                    i as int,
                    j as int,
                    margin,
                ),
            decreases n - j,
        {
            let found = compare_pair(quotes[i], quotes[j], margin);
            let ghost before = res@;
            match found {
                Some(arb) => {
                    res.push(arb);
                },
                None => {},
            }
            assert(row_signals(quotes@, i as int, j + 1, margin) == row_signals(
                quotes@,
                i as int,
                j as int,
                margin,
            ) + option_seq(found));
            assert(res@ == before + option_seq(found));
            j = j + 1;
        }
        i = i + 1;
    }
    res
}

impl Comparer {
    pub closed spec fn config(&self) -> ComparerConfig {
        self.config
    }

    pub fn new(config: ComparerConfig) -> (r: Comparer)
        ensures
            r.config() == config,
    {
        Comparer { config: config }
    }

    /// All arbitrage signals over the given markets. `quotes[k]` holds, in the
    /// order the exchanges are configured, the ticker of every exchange that
    /// reported a price for the `k`-th market. Markets come in order, and
    /// within one market the pairs `(i, j)` with `i <= j`.
    pub fn compare(&self, quotes: Vec<Vec<TickerWithName>>) -> (r: Vec<Arbitrage>)
        ensures
            r@ == all_signals(quotes@, quotes@.len() as int, self.config().percent_diff_margin),
    {
        let margin = self.config.percent_diff_margin;
        let mut res: Vec<Arbitrage> = Vec::new();
        let mut k: usize = 0;
        while k < quotes.len()
            invariant
                0 <= k <= quotes@.len(),
                res@ == all_signals(quotes@, k as int, margin),
            decreases quotes@.len() - k,
        {
            let mut found = compare_market(&quotes[k], margin);
            res.append(&mut found);
            k = k + 1;
        }
        res
    }
}

/// For prices `a > b`, two quotes signal an arbitrage exactly when
/// `(a - b) / b` exceeds the margin strictly; the signal then runs from the
/// exchange of `b` to that of `a` with `percent_diff == (a - b) / b`, whatever
/// order the quotes come in.
pub proof fn lemma_signal_iff_gap_exceeds(a: TickerWithName, b: TickerWithName, margin: Ratio)
    requires
        a.ticker.last > b.ticker.last > 0,
    ensures
        pair_signal(a, b, margin) is Some <==> (a.ticker.last - b.ticker.last) * margin.denom
            > margin.numer * b.ticker.last,
        pair_signal(b, a, margin) == pair_signal(a, b, margin),
        pair_signal(a, b, margin) is Some ==> pair_signal(a, b, margin) == Some(
            Arbitrage {
                from: b.name,
                to: a.name,
                percent_diff: Ratio {
                    numer: (a.ticker.last - b.ticker.last) as u64,
                    denom: b.ticker.last,
                },
            },
        ),
{
}

/// Two quotes with equal prices never signal an arbitrage, whatever the margin.
pub proof fn lemma_equal_prices_no_signal(a: TickerWithName, b: TickerWithName, margin: Ratio)
    requires
        a.ticker.last == b.ticker.last,
    ensures
        pair_signal(a, b, margin) is None,
{
    let n = margin.numer as int;
    let l = a.ticker.last as int;
    let d = margin.denom as int;
    assert(n * l >= 0 && 0 * d == 0) by (nonlinear_arith)
        requires
            n >= 0,
            l >= 0,
    ;
    assert(!gap_exceeds(b.ticker.last as int, a.ticker.last as int, margin));
}

proof fn lemma_uniform_row(q: Seq<TickerWithName>, i: int, end: int, margin: Ratio)
    requires
        0 <= i < q.len(),
        end <= q.len(),
        forall|x: int, y: int|
            0 <= x < q.len() && 0 <= y < q.len() ==> #[trigger] q[x].ticker.last
                == #[trigger] q[y].ticker.last,
    ensures
        row_signals(q, i, end, margin) == Seq::<Arbitrage>::empty(),
    decreases end - i,
{
    if end > i {
        lemma_uniform_row(q, i, end - 1, margin);
        lemma_equal_prices_no_signal(q[i], q[end - 1], margin);
    }
}

/// A market whose quotes all carry the same price yields no arbitrage.
pub proof fn lemma_uniform_market_no_signals(q: Seq<TickerWithName>, end: int, margin: Ratio)
    requires
        end <= q.len(),
        forall|x: int, y: int|
            0 <= x < q.len() && 0 <= y < q.len() ==> #[trigger] q[x].ticker.last
                == #[trigger] q[y].ticker.last,
    ensures
        market_signals(q, end, margin) == Seq::<Arbitrage>::empty(),
    decreases end,
{
    if end > 0 {
        lemma_uniform_market_no_signals(q, end - 1, margin);
        lemma_uniform_row(q, end - 1, q.len() as int, margin);
    }
}

} // verus!
