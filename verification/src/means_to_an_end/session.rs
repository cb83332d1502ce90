//! The prices that one client has sent, and their mean over a period.

use vstd::prelude::*;

verus! {

/// The sum of the prices of `data` whose time is in `mintime..=maxtime`.
pub open spec fn total(data: Seq<(i32, i32)>, mintime: i32, maxtime: i32) -> int
    decreases data.len(),
{
    if data.len() == 0 {
        0
    } else if mintime <= data.last().0 <= maxtime {
        total(data.drop_last(), mintime, maxtime) + data.last().1
    } else {
        total(data.drop_last(), mintime, maxtime)
    }
}

/// The number of the prices of `data` whose time is in `mintime..=maxtime`.
pub open spec fn count(data: Seq<(i32, i32)>, mintime: i32, maxtime: i32) -> int
    decreases data.len(),
{
    if data.len() == 0 {
        0
    } else if mintime <= data.last().0 <= maxtime {
        count(data.drop_last(), mintime, maxtime) + 1
    } else {
        count(data.drop_last(), mintime, maxtime)
    }
}

/// `sum` over `n`, rounded towards zero.
pub open spec fn quotient(sum: int, n: int) -> int {
    if sum >= 0 {
        sum / n
    } else {
        -((-sum) / n)
    }
}

/// The mean price of the period, rounded towards zero; 0 for a period
/// without prices.
pub open spec fn mean(data: Seq<(i32, i32)>, mintime: i32, maxtime: i32) -> int {
    if count(data, mintime, maxtime) == 0 {
        0
    } else {
        quotient(total(data, mintime, maxtime), count(data, mintime, maxtime))
    }
}

/// The mean of a period lies between the least and the greatest price
/// there is, so it is a price itself.
pub proof fn lemma_mean_is_a_price(data: Seq<(i32, i32)>, mintime: i32, maxtime: i32)
    ensures
        i32::MIN <= mean(data, mintime, maxtime) <= i32::MAX,
{
    lemma_total_bounds(data, mintime, maxtime);
    let n = count(data, mintime, maxtime);
    let sum = total(data, mintime, maxtime);
    if n > 0 {
        if sum >= 0 {
            assert(sum / n <= i32::MAX) by (nonlinear_arith)
                requires
                    0 <= sum <= n * i32::MAX,
                    n > 0,
            ;
            assert(sum / n >= 0) by (nonlinear_arith)
                requires
                    0 <= sum,
                    n > 0,
            ;
        } else {
            assert((-sum) / n <= 0x8000_0000) by (nonlinear_arith)
                requires
                    0 <= -sum <= n * 0x8000_0000,
                    n > 0,
            ;
            assert((-sum) / n >= 0) by (nonlinear_arith)
                requires
                    0 <= -sum,
                    n > 0,
            ;
        }
    }
}

proof fn lemma_total_bounds(data: Seq<(i32, i32)>, mintime: i32, maxtime: i32)
    ensures
        0 <= count(data, mintime, maxtime) <= data.len(),
        count(data, mintime, maxtime) * i32::MIN <= total(data, mintime, maxtime) <= count(
            data,
            mintime,
            maxtime,
        ) * i32::MAX,
    decreases data.len(),
{
    if data.len() > 0 {
        lemma_total_bounds(data.drop_last(), mintime, maxtime);
    }
}

/// The prices of one client, each with its time, in the order they came.
pub struct Session {
    data: Vec<(i32, i32)>,
}

impl Session {
    /// The pairs of time and price, in the order they came.
    pub closed spec fn view(&self) -> Seq<(i32, i32)> {
        self.data@
    }

    /// A session without prices.
    pub fn new() -> (session: Self)
        ensures
            session@ == Seq::<(i32, i32)>::empty(),
    {
        Self { data: Vec::new() }
    }

    /// Takes down `price` at `timestamp`.
    pub fn insert(&mut self, timestamp: i32, price: i32)
        ensures
            final(self)@ == old(self)@.push((timestamp, price)),
    {
        self.data.push((timestamp, price));
    }

    /// The mean of the prices from `mintime` to `maxtime`, both included.
    pub fn query(&self, mintime: i32, maxtime: i32) -> (result: i32)
        ensures
            result == mean(self@, mintime, maxtime),
    {
        let mut sum: i128 = 0;
        let mut n: i128 = 0;
        let mut i: usize = 0;
        while i < self.data.len()
            invariant
                i <= self.data.len(),
                sum == total(self@.take(i as int), mintime, maxtime),
                n == count(self@.take(i as int), mintime, maxtime),
                0 <= n <= i,
                n * i32::MIN <= sum <= n * i32::MAX,
            decreases self.data.len() - i,
        {
            proof {
                assert(self@.take(i + 1).drop_last() == self@.take(i as int));
            }
            let (ts, price) = self.data[i];
            if ts >= mintime && ts <= maxtime {
                sum = sum + price as i128;
                n = n + 1;
            }
            i += 1;
        }
        proof {
            assert(self@.take(self.data.len() as int) == self@);
        }
        if n == 0 {
            0
        } else if sum >= 0 {
            assert(sum / n <= i32::MAX) by (nonlinear_arith)
                requires
                    0 <= sum <= n * i32::MAX,
                    n > 0,
            ;
            (sum / n) as i32
        } else {
            let opposite: i128 = -sum;
            assert(opposite / n <= 0x8000_0000) by (nonlinear_arith)
                requires
                    0 <= opposite <= n * 0x8000_0000,
                    n > 0,
            ;
            (-(opposite / n)) as i32
        }
    }
}

} // verus!
