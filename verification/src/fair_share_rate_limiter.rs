//! Fair shares of a common capacity: who used how much of it. The shares
//! themselves are computed elsewhere, with numbers that are not whole.

use vstd::prelude::*;
use vstd::string::*;
use crate::text::same;

verus! {

/// Who uses the capacity.
#[derive(Debug)]
pub struct ConsumerId {
    pub tenant: String,
    pub workload: Option<String>,
    pub api_key_hash: Option<String>,
}

/// Who uses the capacity.
#[verifier::ext_equal]
pub ghost struct Consumer {
    pub tenant: Seq<char>,
    pub workload: Option<Seq<char>>,
    pub api_key_hash: Option<Seq<char>>,
}

/// A text that may be missing.
pub open spec fn option_text(s: Option<String>) -> Option<Seq<char>> {
    match s {
        Some(t) => Some(t@),
        None => None,
    }
}

fn same_option(a: &Option<String>, b: &Option<String>) -> (r: bool)
    ensures
        r == (option_text(*a) == option_text(*b)),
{
    match (a, b) {
        (Some(x), Some(y)) => same(x, y),
        (None, None) => true,
        _ => false,
    }
}

fn copy_option(a: &Option<String>) -> (r: Option<String>)
    ensures
        option_text(r) == option_text(*a),
{
    match a {
        Some(x) => Some(x.clone()),
        None => None,
    }
}

impl View for ConsumerId {
    type V = Consumer;

    open spec fn view(&self) -> Consumer {
        Consumer {
            tenant: self.tenant@,
            workload: option_text(self.workload),
            api_key_hash: option_text(self.api_key_hash),
        }
    }
}

impl ConsumerId {
    pub fn equals(&self, other: &ConsumerId) -> (r: bool)
        ensures
            r == (self@ == other@),
    {
        same(&self.tenant, &other.tenant) && same_option(&self.workload, &other.workload)
            && same_option(&self.api_key_hash, &other.api_key_hash)
    }

    /// The same consumer.
    pub fn copy(&self) -> (r: ConsumerId)
        ensures
            r@ == self@,
    {
        ConsumerId {
            tenant: self.tenant.clone(),
            workload: copy_option(&self.workload),
            api_key_hash: copy_option(&self.api_key_hash),
        }
    }
}

/// What a consumer is told.
#[derive(Clone, Copy, Debug)]
pub struct RateLimitDecision {
    pub allowed: bool,
    pub retry_after_ms: u64,
    pub limit: u64,
    pub remaining: u64,
    pub reset_after_ms: u64,
    pub config_version: u64,
}

/// What a consumer has used.
#[derive(Clone, Copy, Debug, PartialEq, Eq, Structural)]
pub struct ConsumerUsage {
    pub requests: u64,
    pub rejected: u64,
    pub error_count: u64,
}

/// What each consumer has used, in the order in which they came.
#[derive(Debug)]
pub struct UsageTracker {
    pub total_requests: u64,
    pub total_rejected: u64,
    pub per_consumer: Vec<(ConsumerId, ConsumerUsage)>,
}

/// The rows of a tracker.
pub open spec fn rows(v: Seq<(ConsumerId, ConsumerUsage)>) -> Seq<(Consumer, ConsumerUsage)> {
    Seq::new(v.len(), |i: int| (v[i].0@, v[i].1))
}

/// The place of a consumer from `i` on.
pub open spec fn consumer_place(v: Seq<(Consumer, ConsumerUsage)>, c: Consumer, i: int) -> int
    decreases v.len() - i,
{
    if i < 0 || i >= v.len() || v[i].0 == c {
        i
    } else {
        consumer_place(v, c, i + 1)
    }
}

/// What a consumer has used, if anything.
pub open spec fn usage_of(v: Seq<(Consumer, ConsumerUsage)>, c: Consumer) -> Option<
    ConsumerUsage,
> {
    let p = consumer_place(v, c, 0);
    if p < v.len() {
        Some(v[p].1)
    } else {
        None
    }
}

/// The use after one more request.
pub open spec fn used_more(u: ConsumerUsage, allowed: bool) -> ConsumerUsage {
    ConsumerUsage {
        requests: (u.requests + 1) as u64,
        rejected: (u.rejected + if allowed {
            0int
        } else {
            1
        }) as u64,
        error_count: u.error_count,
    }
}

/// The rows after one more request of a consumer.
pub open spec fn after_request(
    v: Seq<(Consumer, ConsumerUsage)>,
    c: Consumer,
    allowed: bool,
) -> Seq<(Consumer, ConsumerUsage)> {
    let p = consumer_place(v, c, 0);
    if p < v.len() {
        v.update(p, (c, used_more(v[p].1, allowed)))
    } else {
        v.push((c, used_more(ConsumerUsage { requests: 0, rejected: 0, error_count: 0 }, allowed)))
    }
}

/// The requests in the first `n` rows.
pub open spec fn sum(v: Seq<(Consumer, ConsumerUsage)>, n: int) -> int
    decreases n,
{
    if n <= 0 {
        0
    } else {
        sum(v, n - 1) + v[n - 1].1.requests
    }
}

/// The squares of the requests in the first `n` rows.
pub open spec fn sum_of_squares(v: Seq<(Consumer, ConsumerUsage)>, n: int) -> int
    decreases n,
{
    if n <= 0 {
        0
    } else {
        sum_of_squares(v, n - 1) + v[n - 1].1.requests * v[n - 1].1.requests
    }
}

proof fn lemma_sums(v: Seq<(Consumer, ConsumerUsage)>, n: int)
    requires
        0 <= n <= v.len(),
    ensures
        0 <= sum(v, n),
        0 <= sum_of_squares(v, n),
        sum_of_squares(v, n) <= sum(v, n) * sum(v, n),
    decreases n,
{
    if n > 0 {
        lemma_sums(v, n - 1);
        let s = sum(v, n - 1);
        let x = v[n - 1].1.requests as int;
        assert((s + x) * (s + x) >= s * s + x * x) by (nonlinear_arith)
            requires
                s >= 0,
                x >= 0,
        ;
        assert(0 <= x * x) by (nonlinear_arith)
            requires
                x >= 0,
        ;
    }
}

/// The sum with a row apart: how the squares compare with the square of the sum.
proof fn lemma_fairness_bound(v: Seq<(Consumer, ConsumerUsage)>, n: int)
    requires
        0 <= n <= v.len(),
    ensures
        sum(v, n) * sum(v, n) <= n * sum_of_squares(v, n),
    decreases n,
{
    if n > 0 {
        lemma_fairness_bound(v, n - 1);
        lemma_sums(v, n - 1);
        let s = sum(v, n - 1);
        let q = sum_of_squares(v, n - 1);
        let x = v[n - 1].1.requests as int;
        let m = n - 1;
        lemma_cross(v, m, x);
        assert((s + x) * (s + x) == s * s + 2 * (s * x) + x * x) by (nonlinear_arith);
        assert((m + 1) * (q + x * x) == m * q + m * (x * x) + q + x * x) by (nonlinear_arith);
        assert(2 * (s * x) <= q + m * (x * x));
    }
}

/// Twice the products with a number are at most the squares of both.
proof fn lemma_cross(v: Seq<(Consumer, ConsumerUsage)>, n: int, x: int)
    requires
        0 <= n <= v.len(),
    ensures
        2 * (sum(v, n) * x) <= sum_of_squares(v, n) + n * (x * x),
    decreases n,
{
    if n > 0 {
        lemma_cross(v, n - 1, x);
        let s = sum(v, n - 1);
        let y = v[n - 1].1.requests as int;
        assert(2 * ((s + y) * x) == 2 * (s * x) + 2 * (y * x)) by (nonlinear_arith);
        assert(2 * (y * x) <= y * y + x * x) by (nonlinear_arith);
        assert(n * (x * x) == (n - 1) * (x * x) + x * x) by (nonlinear_arith);
    } else {
        assert(2 * (0 * x) == 0 && 0 * (x * x) == 0) by (nonlinear_arith);
    }
}

/// Jain's index of fairness is never above one: the square of all requests is at
/// most the number of consumers times the sum of the squares.
pub proof fn law_fairness_is_at_most_one(v: Seq<(Consumer, ConsumerUsage)>)
    ensures
        sum(v, v.len() as int) * sum(v, v.len() as int) <= v.len() * sum_of_squares(
            v,
            v.len() as int,
        ),
{
    lemma_fairness_bound(v, v.len() as int);
}

proof fn lemma_even(v: Seq<(Consumer, ConsumerUsage)>, n: int, x: int)
    requires
        0 <= n <= v.len(),
        forall|i: int| 0 <= i < v.len() ==> (#[trigger] v[i]).1.requests == x,
    ensures
        sum(v, n) == n * x,
        sum_of_squares(v, n) == n * (x * x),
    decreases n,
{
    if n > 0 {
        lemma_even(v, n - 1, x);
        assert(n * x == (n - 1) * x + x) by (nonlinear_arith);
        assert(n * (x * x) == (n - 1) * (x * x) + x * x) by (nonlinear_arith);
    } else {
        assert(0 * x == 0 && 0 * (x * x) == 0) by (nonlinear_arith);
    }
}

/// Jain's index is one where all consumers use the same.
pub proof fn law_equal_use_is_fair(v: Seq<(Consumer, ConsumerUsage)>, x: int)
    requires
        forall|i: int| 0 <= i < v.len() ==> (#[trigger] v[i]).1.requests == x,
    ensures
        sum(v, v.len() as int) * sum(v, v.len() as int) == v.len() * sum_of_squares(
            v,
            v.len() as int,
        ),
{
    let n = v.len() as int;
    lemma_even(v, n, x);
    assert((n * x) * (n * x) == n * (n * (x * x))) by (nonlinear_arith);
}

impl UsageTracker {
    pub fn new() -> (r: Self)
        ensures
            r.total_requests == 0,
            r.total_rejected == 0,
            r.per_consumer@.len() == 0,
    {
        UsageTracker { total_requests: 0, total_rejected: 0, per_consumer: Vec::new() }
    }

    fn find(&self, consumer: &ConsumerId) -> (r: usize)
        ensures
            r == consumer_place(rows(self.per_consumer@), consumer@, 0),
            r <= self.per_consumer@.len(),
    {
        let mut i: usize = 0;
        while i < self.per_consumer.len() && !self.per_consumer[i].0.equals(consumer)
            invariant
                i <= self.per_consumer.len(),
                consumer_place(rows(self.per_consumer@), consumer@, 0) == consumer_place(
                    rows(self.per_consumer@),
                    consumer@,
                    i as int,
                ),
            decreases self.per_consumer@.len() - i,
        {
            assert(rows(self.per_consumer@)[i as int].0 == self.per_consumer@[i as int].0@);
            i = i + 1;
        }
        i
    }

    /// What a consumer has used, if anything.
    pub fn usage(&self, consumer: &ConsumerId) -> (r: Option<ConsumerUsage>)
        ensures
            r == usage_of(rows(self.per_consumer@), consumer@),
    {
        let p = self.find(consumer);
        if p < self.per_consumer.len() {
            Some(self.per_consumer[p].1)
        } else {
            None
        }
    }

    /// Notes a request of a consumer, and whether it was let through.
    pub fn record_usage(&mut self, consumer: &ConsumerId, allowed: bool)
        requires
            old(self).total_requests < u64::MAX,
            old(self).total_rejected < u64::MAX,
            forall|i: int|
                0 <= i < old(self).per_consumer@.len() ==> (#[trigger] old(
                    self,
                ).per_consumer@[i]).1.requests < u64::MAX && old(self).per_consumer@[i].1.rejected
                    < u64::MAX,
        ensures
            final(self).total_requests == old(self).total_requests + 1,
            final(self).total_rejected == old(self).total_rejected + if allowed {
                0int
            } else {
                1
            },
            rows(final(self).per_consumer@) == after_request(
                rows(old(self).per_consumer@),
                consumer@,
                allowed,
            ),
    {
        let ghost before = rows(self.per_consumer@);
        let p = self.find(consumer);
        let more: u64 = if allowed {
            0
        } else {
            1
        };
        if p < self.per_consumer.len() {
            let u = self.per_consumer[p].1;
            let c = self.per_consumer[p].0.copy();
            proof {
                lemma_found(before, consumer@, 0);
                assert(before[p as int].0 == self.per_consumer@[p as int].0@);
            }
            let used = ConsumerUsage {
                requests: u.requests + 1,
                rejected: u.rejected + more,
                error_count: u.error_count,
            };
            self.per_consumer.set(p, (c, used));
            assert(rows(self.per_consumer@) =~= before.update(
                p as int,
                (consumer@, used_more(u, allowed)),
            ));
        } else {
            let used = ConsumerUsage { requests: 1, rejected: more, error_count: 0 };
            self.per_consumer.push((consumer.copy(), used));
            assert(rows(self.per_consumer@) =~= before.push((consumer@, used)));
        }
        self.total_requests = self.total_requests + 1;
        self.total_rejected = self.total_rejected + more;
    }

    /// Jain's index of fairness as a fraction: the square of the sum of all
    /// requests, and the number of consumers times the sum of the squares. Both
    /// are one where nothing was requested. There is none where the parts do not
    /// fit in 128 bits.
    pub fn jain_parts(&self) -> (r: Option<(u128, u128)>)
        ensures
            (match r {
                Some((top, bottom)) => {
                    let v = rows(self.per_consumer@);
                    let n = v.len() as int;
                    fits(v) && top <= bottom && if sum_of_squares(v, n) == 0 {
                        top == 1 && bottom == 1
                    } else {
                        top == sum(v, n) * sum(v, n) && bottom == n * sum_of_squares(v, n)
                    }
                },
                None => !fits(rows(self.per_consumer@)),
            }),
    {
        let ghost v = rows(self.per_consumer@);
        let n = self.per_consumer.len();
        let mut total: u128 = 0;
        let mut i: usize = 0;
        proof {
            lemma_sums(v, n as int);
            law_fairness_is_at_most_one(v);
        }
        while i < n
            invariant
                i <= n,
                n == self.per_consumer@.len(),
                v == rows(self.per_consumer@),
                total == sum(v, i as int),
                total <= i * u64::MAX,
            decreases n - i,
        {
            assert(v[i as int].1 == self.per_consumer@[i as int].1);
            let x: u128 = self.per_consumer[i].1.requests as u128;
            assert((i + 1) * u64::MAX == i * u64::MAX + u64::MAX) by (nonlinear_arith);
            assert((i + 1) * u64::MAX <= u128::MAX) by (nonlinear_arith)
                requires
                    i < 0x1_0000_0000_0000_0000,
            ;
            total = total + x;
            i = i + 1;
        }
        let count: u128 = n as u128;
        let square: u128 = match total.checked_mul(total) {
            Some(square) => square,
            None => {
                proof {
                    let t = total as int;
                    let m = n as int;
                    assert(m * (t * t) >= t * t) by (nonlinear_arith)
                        requires
                            m >= 1,
                            t * t >= 0,
                    ;
                }
                return None;
            },
        };
        if count.checked_mul(square).is_none() {
            return None;
        }
        let mut squares: u128 = 0;
        let mut j: usize = 0;
        while j < n
            invariant
                j <= n,
                n == self.per_consumer@.len(),
                v == rows(self.per_consumer@),
                squares == sum_of_squares(v, j as int),
                fits(v),
            decreases n - j,
        {
            assert(v[j as int].1 == self.per_consumer@[j as int].1);
            let x: u128 = self.per_consumer[j].1.requests as u128;
            proof {
                lemma_fits(v, j as int + 1);
                lemma_sums(v, j as int);
                let y = x as int;
                assert(y * y >= 0) by (nonlinear_arith);
            }
            squares = squares + x * x;
            j = j + 1;
        }
        proof {
            lemma_fits(v, n as int);
        }
        if squares == 0 {
            Some((1, 1))
        } else {
            Some((square, count * squares))
        }
    }
}

/// The parts of Jain's index fit in 128 bits.
pub open spec fn fits(v: Seq<(Consumer, ConsumerUsage)>) -> bool {
    v.len() * (sum(v, v.len() as int) * sum(v, v.len() as int)) <= u128::MAX
}

proof fn lemma_fits(v: Seq<(Consumer, ConsumerUsage)>, i: int)
    requires
        fits(v),
        0 <= i <= v.len(),
    ensures
        sum(v, i) <= u128::MAX,
        sum(v, i) * sum(v, i) <= u128::MAX,
        sum_of_squares(v, i) <= u128::MAX,
        v.len() * sum_of_squares(v, i) <= u128::MAX,
{
    let n = v.len() as int;
    let s = sum(v, i);
    let t = sum(v, n);
    let q = sum_of_squares(v, i);
    lemma_sums(v, i);
    lemma_sums(v, n);
    lemma_partial(v, i, n);
    if i > 0 {
        assert(s * s <= t * t) by (nonlinear_arith)
            requires
                0 <= s <= t,
        ;
        assert(s <= s * s) by (nonlinear_arith)
            requires
                0 <= s,
        ;
        assert(t * t <= n * (t * t)) by (nonlinear_arith)
            requires
                n >= 1,
                t * t >= 0,
        ;
        assert(n * q <= n * (t * t)) by (nonlinear_arith)
            requires
                n >= 1,
                q <= t * t,
        ;
    } else {
        assert(n * 0 == 0) by (nonlinear_arith);
    }
}

proof fn lemma_found(v: Seq<(Consumer, ConsumerUsage)>, c: Consumer, i: int)
    requires
        0 <= i <= v.len(),
    ensures
        i <= consumer_place(v, c, i) <= v.len(),
        consumer_place(v, c, i) < v.len() ==> v[consumer_place(v, c, i)].0 == c,
    decreases v.len() - i,
{
    if i < v.len() && v[i].0 != c {
        lemma_found(v, c, i + 1);
    }
}

proof fn lemma_partial(v: Seq<(Consumer, ConsumerUsage)>, i: int, n: int)
    requires
        0 <= i <= n <= v.len(),
    ensures
        sum(v, i) <= sum(v, n),
    decreases n - i,
{
    if i < n {
        lemma_partial(v, i, n - 1);
    }
}

proof fn lemma_place(v: Seq<(Consumer, ConsumerUsage)>, c: Consumer, i: int)
    requires
        0 <= i <= v.len(),
    ensures
        i <= consumer_place(v, c, i) <= v.len(),
        consumer_place(v, c, i) < v.len() ==> v[consumer_place(v, c, i)].0 == c,
        forall|j: int| i <= j < consumer_place(v, c, i) ==> (#[trigger] v[j]).0 != c,
    decreases v.len() - i,
{
    if i < v.len() && v[i].0 != c {
        lemma_place(v, c, i + 1);
    }
}

proof fn lemma_place_is(v: Seq<(Consumer, ConsumerUsage)>, c: Consumer, i: int, p: int)
    requires
        0 <= i <= p <= v.len(),
        p < v.len() ==> v[p].0 == c,
        forall|j: int| i <= j < p ==> (#[trigger] v[j]).0 != c,
    ensures
        consumer_place(v, c, i) == p,
    decreases p - i,
{
    if i < p {
        assert(v[i].0 != c);
        lemma_place_is(v, c, i + 1, p);
    }
}

/// A request counts one more for the consumer that made it, and one more
/// rejection where it was not allowed; nothing changes for any other consumer.
pub proof fn law_request_counts_for_its_consumer(
    v: Seq<(Consumer, ConsumerUsage)>,
    c: Consumer,
    allowed: bool,
    other: Consumer,
)
    requires
        usage_of(v, c) is Some ==> usage_of(v, c)->0.requests < u64::MAX && usage_of(
            v,
            c,
        )->0.rejected < u64::MAX,
    ensures
        ({
            let after = usage_of(after_request(v, c, allowed), c);
            let before = match usage_of(v, c) {
                Some(u) => u,
                None => ConsumerUsage { requests: 0, rejected: 0, error_count: 0 },
            };
            &&& after is Some
            &&& after->0.requests == before.requests + 1
            &&& allowed ==> after->0.rejected == before.rejected
            &&& !allowed ==> after->0.rejected == before.rejected + 1
            &&& after->0.error_count == before.error_count
            &&& other != c ==> usage_of(after_request(v, c, allowed), other) == usage_of(v, other)
        }),
{
    let w = after_request(v, c, allowed);
    let p = consumer_place(v, c, 0);
    lemma_place(v, c, 0);
    lemma_place_is(w, c, 0, p);
    if other != c {
        let q = consumer_place(v, other, 0);
        lemma_place(v, other, 0);
        if q < v.len() {
            lemma_place_is(w, other, 0, q);
        } else {
            lemma_place_is(w, other, 0, w.len() as int);
        }
    }
}

} // verus!
