//! Per-key token bucket. `per_minute` is the sustained rate and also the
//! burst (a full bucket); 0 disables. In memory only: one API process, and a
//! limit that resets on restart is fine for what this protects against (a
//! runaway client, not an adversary).
//!
//! Time is counted in nanoseconds. A token is divided into [`TOKEN`] parts,
//! which makes the refill of one nanosecond exactly `per_minute` parts.

use crate::table::{age, Table};
use vstd::prelude::*;

verus! {

/// The parts of one token: the nanoseconds of a minute.
pub const TOKEN: u64 = 60_000_000_000;

/// The nanoseconds of one second.
pub const SECOND: u64 = 1_000_000_000;

/// Evict idle buckets once the table grows past this many keys.
const SWEEP_AT: usize = 10_000;

/// A bucket unused for this long (two minutes) may be evicted.
const IDLE: u64 = 120_000_000_000;

#[verifier::external_type_specification]
#[verifier::external_body]
pub struct ExInstant(std::time::Instant);

/// `std::time::Instant::now`: some moment of the machine's monotonic clock.
#[verifier::external_body]
fn this_instant() -> std::time::Instant {
    std::time::Instant::now()
}

/// `std::time::Instant::elapsed`: the time since `start`, in nanoseconds. How
/// much that is depends on when the call is made.
#[verifier::external_body]
fn nanos_since(start: &std::time::Instant) -> u64 {
    start.elapsed().as_nanos() as u64
}

pub struct RateLimiter {
    per_minute: u32,
    start: std::time::Instant,
    buckets: Table<u128>,
}

/// A bucket that holds `parts` and is then left alone for `elapsed`
/// nanoseconds: it refills at `per_minute` tokens a minute, up to that many.
pub open spec fn refilled(per_minute: u32, parts: int, elapsed: int) -> int {
    let full = per_minute * TOKEN;
    let grown = parts + elapsed * per_minute;
    if grown < full {
        grown
    } else {
        full
    }
}

/// The whole seconds until a bucket that holds `parts` has a token again; at
/// least one.
pub open spec fn wait_secs(per_minute: u32, parts: int) -> int {
    let per_second = per_minute * SECOND;
    let wait = (TOKEN - parts + per_second - 1) / per_second;
    if wait < 1 {
        1
    } else {
        wait
    }
}

impl RateLimiter {
    /// What is in the key's bucket at the moment `at`, in parts of a token. A
    /// key without a bucket has a full one.
    pub closed spec fn level(self, key: Seq<char>, at: u64) -> int {
        if self.buckets@.contains_key(key) {
            refilled(
                self.per_minute,
                self.buckets@[key].1 as int,
                age(self.buckets@[key].0, at),
            )
        } else {
            self.per_minute * TOKEN
        }
    }

    /// The sustained rate and the burst.
    pub closed spec fn rate(self) -> u32 {
        self.per_minute
    }

    /// No bucket is overfull.
    pub closed spec fn wf(self) -> bool {
        &&& self.buckets.wf()
        &&& forall|key: Seq<char>| #[trigger]
            self.buckets@.contains_key(key) ==> self.buckets@[key].1 <= self.per_minute * TOKEN
    }

    /// A limiter under which every key has a full bucket.
    pub fn new(per_minute: u32) -> (r: RateLimiter)
        ensures
            r.wf(),
            r.rate() == per_minute,
            forall|key: Seq<char>, at: u64| #[trigger]
                r.level(key, at) == per_minute * TOKEN,
    {
        RateLimiter { per_minute, start: this_instant(), buckets: Table::new() }
    }

    /// A limiter that refuses nothing.
    pub fn disabled() -> (r: RateLimiter)
        ensures
            r.wf(),
            r.rate() == 0,
    {
        Self::new(0)
    }

    /// This moment, on the limiter's clock.
    pub(crate) fn moment(&self) -> u64 {
        nanos_since(&self.start)
    }

    /// `Ok(())` to proceed, `Err(retry_after_secs)` when the key is over.
    /// What is returned depends on the moment of the call, as
    /// [`RateLimiter::check_at`] says for each moment.
    pub fn check(&mut self, key_id: &str) -> (r: Result<(), u32>)
        requires
            old(self).wf(),
        ensures
            final(self).wf(),
            final(self).rate() == old(self).rate(),
            old(self).rate() == 0 ==> r is Ok,
            exists|now: u64| #[trigger] checked(*old(self), *final(self), key_id@, now, r),
    {
        let now: u64 = self.moment();
        let r = self.check_at(key_id, now);
        assert(checked(*old(self), *self, key_id@, now, r));
        r
    }

    /// The same at the moment `now`: a token is taken out of the key's bucket
    /// if there is one. No other key's bucket is touched.
    pub fn check_at(&mut self, key_id: &str, now: u64) -> (r: Result<(), u32>)
        requires
            old(self).wf(),
        ensures
            final(self).wf(),
            final(self).rate() == old(self).rate(),
            checked(*old(self), *final(self), key_id@, now, r),
    {
        if self.per_minute == 0 {
            return Ok(());
        }
        let ghost before = *self;
        let per_minute: u128 = self.per_minute as u128;
        let full: u128 = per_minute * (TOKEN as u128);
        if self.buckets.len() > SWEEP_AT {
            self.buckets.sweep(now, IDLE);
        }
        let held: u128 = match self.buckets.get(key_id) {
            Some((last, tokens)) => {
                let elapsed: u64 = if now > last {
                    now - last
                } else {
                    0
                };
                proof {
                    elapsed_product(elapsed, self.per_minute);
                }
                let grown: u128 = *tokens + (elapsed as u128) * per_minute;
                if grown < full {
                    grown
                } else {
                    full
                }
            },
            None => full,
        };
        proof {
            sweep_is_unseen(before, *self, now);
            assert(held == self.level(key_id@, now));
        }
        let ghost swept = *self;
        if held >= TOKEN as u128 {
            let left: u128 = held - TOKEN as u128;
            self.buckets.put(key_id, now, left);
            proof {
                only_one_touched(before, swept, *self, key_id@, now, left);
            }
            Ok(())
        } else {
            self.buckets.put(key_id, now, held);
            proof {
                only_one_touched(before, swept, *self, key_id@, now, held);
            }
            assert(1_000_000_000 <= per_minute * 1_000_000_000 <= 0xffff_ffff * 1_000_000_000);
            let per_second: u128 = per_minute * (SECOND as u128);
            let missing: u128 = TOKEN as u128 - held;
            let wait: u128 = (missing + per_second - 1) / per_second;
            assert(wait <= 61) by (nonlinear_arith)
                requires
                    missing <= 60_000_000_000u128,
                    per_second >= 1_000_000_000u128,
                    wait == (missing + per_second - 1) / (per_second as int),
            ;
            if wait < 1 {
                Err(1)
            } else {
                Err(wait as u32)
            }
        }
    }
}

/// What one check does: whether it lets the caller through, and what it leaves
/// in each bucket from then on.
pub open spec fn checked(
    before: RateLimiter,
    after: RateLimiter,
    key: Seq<char>,
    now: u64,
    r: Result<(), u32>,
) -> bool {
    let held = before.level(key, now);
    if before.rate() == 0 {
        r is Ok && after == before
    } else {
        &&& r == (if held >= TOKEN {
            Ok::<(), u32>(())
        } else {
            Err::<(), u32>(wait_secs(before.rate(), held) as u32)
        })
        &&& forall|at: u64| #[trigger]
            after.level(key, at) == refilled(
                before.rate(),
                if held >= TOKEN {
                    held - TOKEN
                } else {
                    held
                },
                age(now, at),
            )
        &&& forall|other: Seq<char>, at: u64|
            other != key && at >= now ==> #[trigger] after.level(other, at) == before.level(
                other,
                at,
            )
    }
}

proof fn elapsed_product(elapsed: u64, per_minute: u32)
    ensures
        0 <= elapsed * per_minute <= 0xffff_ffff_ffff_ffff * 0xffff_ffff,
{
    assert(0 <= elapsed * per_minute <= 0xffff_ffff_ffff_ffff * 0xffff_ffff) by (nonlinear_arith)
        requires
            0 <= elapsed <= 0xffff_ffff_ffff_ffff,
            0 <= per_minute <= 0xffff_ffff,
    ;
}

/// A bucket that was swept out was full, and so is one that is not there.
proof fn sweep_is_unseen(before: RateLimiter, swept: RateLimiter, now: u64)
    requires
        before.wf(),
        swept.per_minute == before.per_minute,
        swept.buckets@ == before.buckets@ || swept.buckets@ == before.buckets@.restrict(
            Set::new(
                |key: Seq<char>|
                    before.buckets@.contains_key(key) && age(before.buckets@[key].0, now) < IDLE,
            ),
        ),
    ensures
        forall|key: Seq<char>, at: u64|
            at >= now ==> #[trigger] swept.level(key, at) == before.level(key, at),
        forall|key: Seq<char>| #[trigger]
            swept.buckets@.contains_key(key) ==> swept.buckets@[key].1 <= swept.per_minute * TOKEN,
{
    assert forall|key: Seq<char>, at: u64| at >= now implies #[trigger] swept.level(key, at)
        == before.level(key, at) by {
        if before.buckets@.contains_key(key) && !swept.buckets@.contains_key(key) {
            let idle = age(before.buckets@[key].0, at);
            assert(idle >= IDLE);
            let per_minute = before.per_minute;
            assert(idle * per_minute >= per_minute * TOKEN) by (nonlinear_arith)
                requires
                    idle >= 60_000_000_000,
                    TOKEN == 60_000_000_000,
                    per_minute >= 0,
            ;
        }
    }
}

proof fn only_one_touched(
    before: RateLimiter,
    swept: RateLimiter,
    after: RateLimiter,
    key: Seq<char>,
    now: u64,
    left: u128,
)
    requires
        before.wf(),
        swept.per_minute == before.per_minute,
        after.per_minute == before.per_minute,
        after.buckets.wf(),
        after.buckets@ == swept.buckets@.insert(key, (now, left)),
        left <= before.per_minute * TOKEN,
        forall|key: Seq<char>, at: u64|
            at >= now ==> #[trigger] swept.level(key, at) == before.level(key, at),
        forall|key: Seq<char>| #[trigger]
            swept.buckets@.contains_key(key) ==> swept.buckets@[key].1 <= swept.per_minute * TOKEN,
    ensures
        after.wf(),
        forall|at: u64| #[trigger]
            after.level(key, at) == refilled(before.per_minute, left as int, age(now, at)),
        forall|other: Seq<char>, at: u64|
            other != key && at >= now ==> #[trigger] after.level(other, at) == before.level(
                other,
                at,
            ),
{
    assert forall|other: Seq<char>, at: u64| other != key && at >= now implies #[trigger] after.level(
        other,
        at,
    ) == before.level(other, at) by {
        assert(swept.level(other, at) == before.level(other, at));
    }
}

/// A run of checks: the limiter before the first and after each of them, the
/// key that each was made for, the moment of each, in order, and its answer.
pub struct Run {
    pub states: Seq<RateLimiter>,
    pub keys: Seq<Seq<char>>,
    pub moments: Seq<u64>,
    pub answers: Seq<Result<(), u32>>,
}

impl Run {
    /// The run is one of `n` checks made one after the other.
    pub open spec fn is_of(self, n: nat) -> bool {
        &&& self.states.len() == n + 1
        &&& self.keys.len() == n
        &&& self.moments.len() == n
        &&& self.answers.len() == n
        &&& forall|i: int, j: int|
            0 <= i <= j < n ==> #[trigger] self.moments[i] <= #[trigger] self.moments[j]
        &&& forall|i: int| #![trigger self.moments[i]]
            0 <= i < n ==> checked(
                self.states[i],
                self.states[i + 1],
                self.keys[i],
                self.moments[i],
                self.answers[i],
            ) && self.states[i + 1].rate() == self.states[i].rate()
    }

    /// How many of the first `n` checks were made for the key and let through.
    pub open spec fn admitted(self, key: Seq<char>, n: nat) -> nat
        decreases n,
    {
        if n == 0 {
            0
        } else {
            self.admitted(key, (n - 1) as nat) + if self.keys[n - 1] == key && self.answers[n
                - 1] is Ok {
                1nat
            } else {
                0nat
            }
        }
    }
}

impl Run {
    /// The moments of those of the first `n` checks that were made for the key.
    pub open spec fn moments_of(self, key: Seq<char>, n: nat) -> Seq<u64>
        decreases n,
    {
        if n == 0 {
            Seq::empty()
        } else {
            let earlier = self.moments_of(key, (n - 1) as nat);
            if self.keys[n - 1] == key {
                earlier.push(self.moments[n - 1])
            } else {
                earlier
            }
        }
    }

    /// The run without its first checks.
    pub open spec fn from(self, first: int) -> Run {
        Run {
            states: self.states.skip(first),
            keys: self.keys.skip(first),
            moments: self.moments.skip(first),
            answers: self.answers.skip(first),
        }
    }
}

/// What is in a bucket that was full, once checks were made for its key at those
/// moments: each takes a token where there is one, and nothing where there is none.
pub open spec fn held_after(per_minute: u32, moments: Seq<u64>, at: u64) -> int
    decreases moments.len(),
{
    if moments.len() == 0 {
        per_minute * TOKEN
    } else {
        let held = held_after(per_minute, moments.drop_last(), moments.last());
        refilled(
            per_minute,
            if held >= TOKEN {
                held - TOKEN
            } else {
                held
            },
            age(moments.last(), at),
        )
    }
}

/// The burst and the sustained rate hold together: of the checks made for one
/// key, whatever is asked for other keys before and in between, no more are let
/// through than the burst and what the rate allows for the time that has passed
/// since the first of them.
pub proof fn admissions_are_bounded(run: Run, key: Seq<char>, n: nat, first: nat)
    requires
        first < n,
        run.is_of(n),
        run.states[0].rate() > 0,
        forall|i: int| 0 <= i < first ==> #[trigger] run.keys[i] != key,
    ensures
        run.admitted(key, n) * 60_000_000_000 <= run.states[0].rate() * 60_000_000_000 + (
        run.moments[n - 1] - run.moments[first as int]) * run.states[0].rate(),
        run.admitted(key, n) <= run.states[0].rate() + ((run.moments[n - 1]
            - run.moments[first as int]) * run.states[0].rate()) / 60_000_000_000,
{
    let rate = run.states[0].rate();
    let later = run.from(first as int);
    let m = (n - first) as nat;
    rate_stays(run, n, first);
    assert(later.is_of(m)) by {
        assert forall|i: int| #![trigger later.moments[i]] 0 <= i < m implies checked(
            later.states[i],
            later.states[i + 1],
            later.keys[i],
            later.moments[i],
            later.answers[i],
        ) && later.states[i + 1].rate() == later.states[i].rate() by {
            assert(later.moments[i] == run.moments[first + i]);
        }
        assert forall|i: int, j: int| 0 <= i <= j < m implies #[trigger] later.moments[i]
            <= #[trigger] later.moments[j] by {
            assert(later.moments[i] == run.moments[first + i]);
            assert(later.moments[j] == run.moments[first + j]);
        }
    }
    admitted_since(run, key, n, first, m);
    budget_holds(later, key, m, m);
    let last = later.moments[m - 1];
    level_is_no_debt(later.states[m as int], key, last);
    let admitted = run.admitted(key, n) as int;
    let spare = (run.moments[n - 1] - run.moments[first as int]) * rate;
    assert(admitted <= rate + spare / (TOKEN as int)) by (nonlinear_arith)
        requires
            admitted * 60_000_000_000 <= rate * 60_000_000_000 + spare,
            TOKEN == 60_000_000_000,
    ;
}

proof fn rate_stays(run: Run, n: nat, made: nat)
    requires
        made <= n,
        run.is_of(n),
    ensures
        run.states[made as int].rate() == run.states[0].rate(),
    decreases made,
{
    if made > 0 {
        rate_stays(run, n, (made - 1) as nat);
        assert(run.moments[made - 1] >= 0);
    }
}

/// What was let through for a key was let through since its first check.
proof fn admitted_since(run: Run, key: Seq<char>, n: nat, first: nat, m: nat)
    requires
        first + m <= n,
        run.is_of(n),
        forall|i: int| 0 <= i < first ==> #[trigger] run.keys[i] != key,
    ensures
        run.admitted(key, (first + m) as nat) == run.from(first as int).admitted(key, m),
    decreases first + m,
{
    if m > 0 {
        admitted_since(run, key, n, first, (m - 1) as nat);
        assert(run.from(first as int).keys[m - 1] == run.keys[first + m - 1]);
        assert(run.from(first as int).answers[m - 1] == run.answers[first + m - 1]);
    } else if first > 0 {
        none_admitted(run, key, first);
    }
}

proof fn none_admitted(run: Run, key: Seq<char>, first: nat)
    requires
        forall|i: int| 0 <= i < first ==> #[trigger] run.keys[i] != key,
    ensures
        run.admitted(key, first) == 0,
    decreases first,
{
    if first > 0 {
        none_admitted(run, key, (first - 1) as nat);
        assert(run.keys[first - 1] != key);
    }
}

proof fn budget_holds(run: Run, key: Seq<char>, n: nat, made: nat)
    requires
        0 < made <= n,
        run.is_of(n),
        run.states[0].rate() > 0,
    ensures
        run.states[made as int].rate() == run.states[0].rate(),
        forall|at: u64|
            at >= run.moments[made - 1] ==> run.admitted(key, made) * TOKEN
                + #[trigger] run.states[made as int].level(key, at) <= run.states[0].rate() * TOKEN
                + (at - run.moments[0]) * run.states[0].rate(),
    decreases made,
{
    let rate = run.states[0].rate();
    let earlier = (made - 1) as nat;
    let now = run.moments[made - 1];
    assert(run.moments[0] <= now);
    if earlier > 0 {
        budget_holds(run, key, n, earlier);
        assert(run.moments[earlier - 1] <= now);
    }
    let before = run.states[earlier as int];
    let after = run.states[made as int];
    let held = before.level(key, now);
    assert(checked(before, after, run.keys[made - 1], now, run.answers[made - 1]));
    let so_far = run.admitted(key, earlier) * TOKEN;
    assert(so_far + held <= rate * TOKEN + (now - run.moments[0]) * rate) by {
        if earlier == 0 {
            assert(run.admitted(key, 0) == 0);
            assert((now - run.moments[0]) * rate >= 0) by (nonlinear_arith)
                requires
                    now >= run.moments[0],
            ;
        }
    }
    assert forall|at: u64| at >= now implies run.admitted(key, made) * TOKEN
        + #[trigger] after.level(key, at) <= rate * TOKEN + (at - run.moments[0]) * rate by {
        assert((at - run.moments[0]) * rate == (at - now) * rate + (now - run.moments[0]) * rate)
            by (nonlinear_arith);
        if run.keys[made - 1] != key {
            assert(after.level(key, at) == before.level(key, at));
            if earlier == 0 {
                assert((at - run.moments[0]) * rate >= 0) by (nonlinear_arith)
                    requires
                        at >= run.moments[0],
                ;
            }
        }
    }
}

/// A bucket holds at least nothing.
proof fn level_is_no_debt(limiter: RateLimiter, key: Seq<char>, at: u64)
    ensures
        limiter.level(key, at) >= 0,
{
    if limiter.buckets@.contains_key(key) {
        let idle = age(limiter.buckets@[key].0, at);
        let rate = limiter.per_minute;
        assert(idle * rate >= 0) by (nonlinear_arith)
            requires
                idle >= 0,
        ;
    }
}

/// A bucket holds at least nothing, and at most the burst.
pub proof fn a_level_lies_between_nothing_and_full(limiter: RateLimiter, key: Seq<char>, at: u64)
    ensures
        0 <= limiter.level(key, at) <= limiter.rate() * 60_000_000_000,
{
    level_is_no_debt(limiter, key, at);
}

/// A key's answers depend on its own checks alone: in a run that found its bucket
/// full, each is what the moments of its earlier checks and that of this one come
/// to, whatever is asked for other keys in between. Without a rate each is let
/// through.
pub proof fn answers_depend_on_the_key_alone(run: Run, key: Seq<char>, n: nat, i: nat)
    requires
        run.is_of(n),
        forall|at: u64| #[trigger]
            run.states[0].level(key, at) == run.states[0].rate() * 60_000_000_000,
        i < n,
        run.keys[i as int] == key,
    ensures
        ({
            let rate = run.states[0].rate();
            let held = held_after(rate, run.moments_of(key, i), run.moments[i as int]);
            run.answers[i as int] == (if rate == 0 || held >= 60_000_000_000 {
                Ok::<(), u32>(())
            } else {
                Err::<(), u32>(wait_secs(rate, held) as u32)
            })
        }),
{
    rate_stays(run, n, i);
    let now = run.moments[i as int];
    assert(checked(
        run.states[i as int],
        run.states[i as int + 1],
        key,
        now,
        run.answers[i as int],
    ));
    if run.states[0].rate() == 0 {
        assert(run.answers[i as int]->Ok_0 == ());
    } else {
        level_is_held(run, key, n, i);
        if i > 0 {
            assert(run.moments[i - 1] <= now);
        }
        assert(run.states[i as int].level(key, now) == held_after(
            run.states[0].rate(),
            run.moments_of(key, i),
            now,
        ));
    }
}

proof fn level_is_held(run: Run, key: Seq<char>, n: nat, made: nat)
    requires
        made <= n,
        run.is_of(n),
        run.states[0].rate() > 0,
        forall|at: u64| #[trigger]
            run.states[0].level(key, at) == run.states[0].rate() * TOKEN,
    ensures
        forall|at: u64|
            (made == 0 || at >= run.moments[made - 1]) ==> #[trigger] run.states[made as int].level(
                key,
                at,
            ) == held_after(run.states[0].rate(), run.moments_of(key, made), at),
    decreases made,
{
    if made > 0 {
        let rate = run.states[0].rate();
        let earlier = (made - 1) as nat;
        let now = run.moments[made - 1];
        level_is_held(run, key, n, earlier);
        rate_stays(run, n, earlier);
        if earlier > 0 {
            assert(run.moments[earlier - 1] <= now);
        }
        let before = run.states[earlier as int];
        let after = run.states[made as int];
        assert(checked(before, after, run.keys[made - 1], now, run.answers[made - 1]));
        let past = run.moments_of(key, earlier);
        assert(before.level(key, now) == held_after(rate, past, now));
        assert forall|at: u64| at >= now implies #[trigger] after.level(key, at) == held_after(
            rate,
            run.moments_of(key, made),
            at,
        ) by {
            if run.keys[made - 1] == key {
                assert(past.push(now).drop_last() =~= past);
            } else {
                assert(before.level(key, at) == held_after(rate, past, at));
            }
        }
    }
}

/// The burst is there: in a run that found a key's bucket full, as it is under a
/// new limiter, as many of its checks pass at once as the rate says.
pub proof fn the_burst_is_let_through(run: Run, key: Seq<char>, n: nat, i: nat)
    requires
        run.is_of(n),
        forall|at: u64| #[trigger]
            run.states[0].level(key, at) == run.states[0].rate() * 60_000_000_000,
        i < n,
        run.keys[i as int] == key,
        run.states[0].rate() == 0 || run.moments_of(key, i).len() < run.states[0].rate(),
    ensures
        run.answers[i as int] is Ok,
{
    answers_depend_on_the_key_alone(run, key, n, i);
    let rate = run.states[0].rate();
    let past = run.moments_of(key, i);
    enough_is_left(rate, past, run.moments[i as int]);
    assert((rate - past.len()) * 60_000_000_000 >= 60_000_000_000 || rate == 0);
}

proof fn enough_is_left(per_minute: u32, moments: Seq<u64>, at: u64)
    ensures
        held_after(per_minute, moments, at) >= (per_minute - moments.len()) * TOKEN,
        0 <= held_after(per_minute, moments, at) <= per_minute * TOKEN,
    decreases moments.len(),
{
    if moments.len() > 0 {
        let past = moments.drop_last();
        enough_is_left(per_minute, past, moments.last());
        let elapsed = age(moments.last(), at);
        assert(elapsed * per_minute >= 0) by (nonlinear_arith)
            requires
                elapsed >= 0,
        ;
    }
}

/// A check that is refused spends nothing: from then on the bucket holds what it
/// would hold without it.
pub proof fn a_refusal_spends_nothing(per_minute: u32, moments: Seq<u64>, now: u64, at: u64)
    requires
        moments.len() == 0 || moments.last() <= now,
        now <= at,
        held_after(per_minute, moments, now) < 60_000_000_000,
    ensures
        held_after(per_minute, moments.push(now), at) == held_after(per_minute, moments, at),
{
    let held = held_after(per_minute, moments, now);
    assert(moments.push(now).drop_last() =~= moments);
    let rest = at - now;
    assert(rest * per_minute >= 0) by (nonlinear_arith)
        requires
            rest >= 0,
    ;
    if moments.len() > 0 {
        let since = now - moments.last();
        assert((since + rest) * per_minute == since * per_minute + rest * per_minute)
            by (nonlinear_arith);
    }
}

/// Who is refused is told to wait at least a second, and no longer than one token
/// takes: sixty seconds over the rate, rounded up.
pub proof fn a_wait_is_no_longer_than_a_token_takes(
    before: RateLimiter,
    after: RateLimiter,
    key: Seq<char>,
    now: u64,
    secs: u32,
)
    requires
        checked(before, after, key, now, Err(secs)),
    ensures
        before.rate() > 0,
        1 <= secs <= (60 + before.rate() - 1) / (before.rate() as int),
{
    let rate = before.rate() as int;
    let held = before.level(key, now);
    level_is_no_debt(before, key, now);
    let per_second = rate * SECOND;
    let missing = TOKEN - held;
    let most = (60 + rate - 1) / rate;
    assert(most * rate >= 60 && 1 <= most <= 60) by (nonlinear_arith)
        requires
            rate >= 1,
            most == (60 + rate - 1) / rate,
    ;
    assert(most * per_second >= missing) by (nonlinear_arith)
        requires
            most * rate >= 60,
            per_second == rate * 1_000_000_000,
            missing <= 60_000_000_000,
    ;
    let wait = (missing + per_second - 1) / per_second;
    assert(wait <= most) by (nonlinear_arith)
        requires
            most * per_second >= missing,
            per_second >= 1_000_000_000,
            wait == (missing + per_second - 1) / per_second,
    ;
}

/// Who is told to come back after some seconds, and does, is let through.
pub proof fn waiting_as_told_suffices(
    before: RateLimiter,
    after: RateLimiter,
    key: Seq<char>,
    now: u64,
    secs: u32,
    later: u64,
    last: RateLimiter,
    answer: Result<(), u32>,
)
    requires
        checked(before, after, key, now, Err(secs)),
        later >= now + secs * 1_000_000_000,
        checked(after, last, key, later, answer),
    ensures
        answer is Ok,
{
    let rate = before.rate();
    let held = before.level(key, now);
    level_is_no_debt(before, key, now);
    let per_second = rate * SECOND;
    let missing = TOKEN - held;
    let wait = wait_secs(rate, held);
    assert(per_second >= SECOND);
    assert(1 <= wait <= 61 && wait * per_second >= missing) by (nonlinear_arith)
        requires
            per_second >= 1_000_000_000,
            0 < missing <= 60_000_000_000,
            wait == if (missing + per_second - 1) / per_second < 1 {
                1
            } else {
                (missing + per_second - 1) / per_second
            },
    ;
    assert(secs == wait);
    assert(age(now, later) * rate >= wait * per_second) by (nonlinear_arith)
        requires
            age(now, later) >= wait * 1_000_000_000,
            per_second == rate * 1_000_000_000,
            rate >= 0,
    ;
}

/// A wait is in whole seconds, and no longer than it has to be: a second less would
/// not do, unless the wait is that one second.
pub proof fn a_wait_is_as_short_as_it_can_be(
    before: RateLimiter,
    after: RateLimiter,
    key: Seq<char>,
    now: u64,
    secs: u32,
)
    requires
        checked(before, after, key, now, Err(secs)),
    ensures
        secs >= 1,
        secs == 1 || before.level(key, now) + (secs - 1) * 1_000_000_000 * before.rate()
            < 60_000_000_000,
{
    a_wait_is_no_longer_than_a_token_takes(before, after, key, now, secs);
    a_level_lies_between_nothing_and_full(before, key, now);
    let rate = before.rate() as int;
    let held = before.level(key, now);
    let per_second = rate * 1_000_000_000;
    let missing = 60_000_000_000 - held;
    let wait = (missing + per_second - 1) / per_second;
    assert(wait_secs(before.rate(), held) as u32 == secs);
    assert(per_second >= 1_000_000_000) by (nonlinear_arith)
        requires
            rate >= 1,
            per_second == rate * 1_000_000_000,
    ;
    assert(0 <= wait <= missing + per_second) by (nonlinear_arith)
        requires
            wait == (missing + per_second - 1) / per_second,
            per_second >= 1_000_000_000,
            0 < missing,
    ;
    assert((wait - 1) * per_second < missing) by (nonlinear_arith)
        requires
            wait == (missing + per_second - 1) / per_second,
            per_second > 0,
    ;
    assert(wait <= 61) by (nonlinear_arith)
        requires
            (wait - 1) * per_second < missing,
            per_second >= 1_000_000_000,
            missing <= 60_000_000_000,
    ;
    if secs != 1 {
        assert(secs == wait);
        assert((secs - 1) * 1_000_000_000 * rate == (wait - 1) * per_second) by (nonlinear_arith)
            requires
                secs == wait,
                per_second == rate * 1_000_000_000,
        ;
    }
}

/// A token comes back in a minute's share: a bucket left alone has after any time what
/// it held and that time's part of the rate, a minute being the whole rate, but never
/// more than the whole.
pub proof fn a_bucket_refills_by_the_minute(per_minute: u32, parts: int, elapsed: int)
    requires
        0 <= parts <= per_minute * 60_000_000_000,
        elapsed >= 0,
    ensures
        refilled(per_minute, parts, 0) == parts,
        elapsed >= 60_000_000_000 ==> refilled(per_minute, parts, elapsed) == per_minute
            * 60_000_000_000,
        refilled(per_minute, parts, elapsed) <= per_minute * 60_000_000_000,
        parts + elapsed * per_minute <= per_minute * 60_000_000_000 ==> refilled(
            per_minute,
            parts,
            elapsed,
        ) == parts + elapsed * per_minute,
{
    assert(elapsed >= 60_000_000_000 ==> elapsed * per_minute >= per_minute * 60_000_000_000)
        by (nonlinear_arith)
        requires
            elapsed >= 0,
            per_minute >= 0,
    ;
}

} // verus!
