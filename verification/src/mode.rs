//! Emission modes: one-shot bursts and continuous streams.
//!
//! Times are in simulated milliseconds since the animation started. A
//! continuous stream decides per millisecond whether a particle is emitted,
//! by thresholding a fixed low-discrepancy ordering of the 1000 millisecond
//! slots of a second (see [`order_of`]), so that any rate spreads its
//! emissions evenly over the second instead of clumping them.

use vstd::prelude::*;

verus! {

use vstd::arithmetic::div_mod::{
    lemma_mod_add_multiples_vanish, lemma_mod_bound, lemma_mod_multiples_vanish,
    lemma_mul_mod_noop_right, lemma_small_mod,
};
use vstd::math::{max, min};

/// How to emit particles. Times are precise to the nearest millisecond.
#[derive(Copy, Clone, Debug, PartialEq, Eq, Structural)]
pub struct Mode(ModeImpl);

#[derive(Copy, Clone, Debug, PartialEq, Eq, Structural)]
pub enum ModeImpl {
    /// Emit all particles at a certain time.
    Burst {
        /// How many particles to emit.
        count: usize,
        /// Time of the burst, in milliseconds since first render.
        delay: u64,
    },
    /// Constant stream of particles.
    Continuous {
        /// How many particles are emitted per second. Max is 1000.
        rate: u16,
        /// When the particles start being emitted, in milliseconds since first render.
        start: u64,
        /// When the particles stop being emitted, in milliseconds since first render.
        end: u64,
    },
}

impl View for Mode {
    type V = ModeImpl;

    closed spec fn view(&self) -> ModeImpl {
        self.0
    }
}

/// Position of millisecond slot `t mod 1000` in the emission ordering of a
/// second: a millisecond emits iff the rate exceeds its position. The
/// ordering is the multiplicative Weyl permutation `t * 617 mod 1000`
/// (617 is coprime to 1000 and close to 1000 divided by the golden ratio),
/// so the slots selected by any threshold are spread almost evenly over the
/// second by the three-distance theorem.
pub open spec fn order_of(t: int) -> int {
    (617 * (t % 1000)) % 1000
}

/// Whether a continuous stream at `rate` emits a particle during
/// millisecond `t`.
pub open spec fn emits_at(rate: u16, t: int) -> bool {
    order_of(t) < rate as int
}

/// Number of milliseconds in `[lo, hi)` during which a continuous stream
/// at `rate` emits a particle.
pub open spec fn count_emits(rate: u16, lo: int, hi: int) -> nat
    decreases hi - lo,
{
    if hi <= lo {
        0
    } else {
        count_emits(rate, lo, hi - 1) + if emits_at(rate, hi - 1) {
            1nat
        } else {
            0nat
        }
    }
}

/// Number of particles a mode emits during the queried interval
/// `[start, end)` of simulated milliseconds: a burst counts exactly in the
/// interval that contains its delay, a continuous stream counts its emitting
/// milliseconds after clipping the query to its own window.
pub open spec fn emission_count(m: ModeImpl, start: int, end: int) -> nat {
    match m {
        ModeImpl::Burst { count, delay } => if start <= delay < end {
            count as nat
        } else {
            0
        },
        ModeImpl::Continuous { rate, start: s, end: e } => count_emits(
            rate,
            max(start, s as int),
            min(end, e as int),
        ),
    }
}

/// Whether a mode's emission window has fully elapsed by simulated time
/// `now`: once it holds, the mode will never emit again.
pub open spec fn mode_elapsed(m: ModeImpl, now: u64) -> bool {
    match m {
        ModeImpl::Burst { delay, .. } => now > delay,
        ModeImpl::Continuous { end, .. } => now > end,
    }
}

/// Exec mirror of [`order_of`].
fn order_index(t: u64) -> (r: u16)
    ensures
        r as int == order_of(t as int),
{
    (((t % 1000) * 617) % 1000) as u16
}

impl Mode {
    /// Emit `count` particles upon first render.
    pub fn burst(count: usize) -> (m: Self)
        ensures
            m@ == (ModeImpl::Burst { count, delay: 0 }),
    {
        Self(ModeImpl::Burst { count, delay: 0 })
    }

    /// Emit `count` particles `delay_ms` milliseconds after first render.
    pub fn delayed_burst(count: usize, delay_ms: u64) -> (m: Self)
        ensures
            m@ == (ModeImpl::Burst { count, delay: delay_ms }),
    {
        Self(ModeImpl::Burst { count, delay: delay_ms })
    }

    pub fn is_burst(&self) -> (b: bool)
        ensures
            b == (self@ is Burst),
    {
        matches!(self.0, ModeImpl::Burst { .. })
    }

    /// Constantly emit `rate` particles per second.
    pub fn continuous(rate: usize) -> (m: Self)
        requires
            rate <= 1000,
        ensures
            m@ == (ModeImpl::Continuous { rate: rate as u16, start: 0, end: u64::MAX }),
    {
        Self(ModeImpl::Continuous { rate: rate as u16, start: 0, end: u64::MAX })
    }

    /// Constantly emit `rate` particles per second, starting `delay_ms`
    /// milliseconds after first render.
    pub fn delayed_continuous(rate: usize, delay_ms: u64) -> (m: Self)
        requires
            rate <= 1000,
        ensures
            m@ == (ModeImpl::Continuous { rate: rate as u16, start: delay_ms, end: u64::MAX }),
    {
        Self(ModeImpl::Continuous { rate: rate as u16, start: delay_ms, end: u64::MAX })
    }

    /// Constantly emit `rate` particles per second, for the first
    /// `duration_ms` milliseconds after first render.
    pub fn finite_continuous(rate: usize, duration_ms: u64) -> (m: Self)
        requires
            rate <= 1000,
        ensures
            m@ == (ModeImpl::Continuous { rate: rate as u16, start: 0, end: duration_ms }),
    {
        Self(ModeImpl::Continuous { rate: rate as u16, start: 0, end: duration_ms })
    }

    /// Constantly emit `rate` particles per second, starting `delay_ms`
    /// milliseconds after first render and for `duration_ms` milliseconds
    /// thereafter.
    pub fn delayed_finite_continuous(rate: usize, delay_ms: u64, duration_ms: u64) -> (m: Self)
        requires
            rate <= 1000,
            delay_ms + duration_ms <= u64::MAX,
        ensures
            m@ == (ModeImpl::Continuous {
                rate: rate as u16,
                start: delay_ms,
                end: (delay_ms + duration_ms) as u64,
            }),
    {
        Self(
            ModeImpl::Continuous {
                rate: rate as u16,
                start: delay_ms,
                end: delay_ms + duration_ms,
            },
        )
    }

    pub fn is_continuous(&self) -> (b: bool)
        ensures
            b == (self@ is Continuous),
    {
        matches!(self.0, ModeImpl::Continuous { .. })
    }

    /// The underlying emission variant.
    pub fn impl_ref(&self) -> (m: &ModeImpl)
        ensures
            *m == self@,
    {
        &self.0
    }

    /// Replace the underlying emission variant, bypassing the
    /// constructors' validation (as direct mutation always could).
    pub fn set_impl(&mut self, m: ModeImpl)
        ensures
            final(self)@ == m,
    {
        self.0 = m;
    }

    /// Whether the mode's emission window has fully elapsed by simulated
    /// time `now`: a burst once its delay has passed, a continuous stream
    /// once its end has passed.
    pub fn elapsed(&self, now: u64) -> (b: bool)
        ensures
            b == mode_elapsed(self@, now),
    {
        match self.0 {
            ModeImpl::Burst { delay, .. } => now > delay,
            ModeImpl::Continuous { end, .. } => now > end,
        }
    }

    /// Number of particles this mode emits during the queried interval
    /// `[start, end)` of simulated milliseconds.
    pub fn particles_to_emit(&self, start: u64, end: u64) -> (n: u64)
        ensures
            n as nat == emission_count(self@, start as int, end as int),
    {
        match self.0 {
            ModeImpl::Burst { count, delay } => {
                if start <= delay && delay < end {
                    count as u64
                } else {
                    0
                }
            },
            ModeImpl::Continuous { rate, start: cs, end: ce } => {
                let lo: u64 = if start > cs {
                    start
                } else {
                    cs
                };
                let hi: u64 = if end < ce {
                    end
                } else {
                    ce
                };
                let mut n: u64 = 0;
                let mut t: u64 = lo;
                while t < hi
                    invariant
                        lo <= t,
                        lo <= hi ==> t <= hi,
                        hi <= lo ==> t == lo,
                        n <= t - lo,
                        n as nat == count_emits(rate, lo as int, t as int),
                    decreases hi - t,
                {
                    if rate > order_index(t) {
                        n = n + 1;
                    }
                    t = t + 1;
                }
                n
            },
        }
    }
}

/// Number of milliseconds in `[lo, hi)` whose position in the emission
/// ordering is exactly `v`.
spec fn count_hits(v: int, lo: int, hi: int) -> nat
    decreases hi - lo,
{
    if hi <= lo {
        0
    } else {
        count_hits(v, lo, hi - 1) + if order_of(hi - 1) == v {
            1nat
        } else {
            0nat
        }
    }
}

/// The emission ordering position is always one of the 1000 slots.
proof fn lemma_order_bounds(t: int)
    ensures
        0 <= order_of(t) < 1000,
{
    lemma_mod_bound(617 * (t % 1000), 1000);
}

/// The emission ordering repeats every second.
proof fn lemma_order_periodic(t: int)
    ensures
        order_of(t + 1000) == order_of(t),
{
    lemma_mod_add_multiples_vanish(t, 1000);
}

/// `953` inverts `617` modulo 1000: slot `953 * v mod 1000` has ordering
/// position exactly `v`.
proof fn lemma_order_inverse(v: int)
    requires
        0 <= v < 1000,
    ensures
        0 <= (953 * v) % 1000 < 1000,
        order_of((953 * v) % 1000) == v,
{
    lemma_mod_bound(953 * v, 1000);
    let u = (953 * v) % 1000;
    lemma_small_mod(u as nat, 1000);
    lemma_mul_mod_noop_right(617, 953 * v, 1000);
    assert(617 * (953 * v) == 1000 * (588 * v) + v) by (nonlinear_arith);
    lemma_mod_multiples_vanish(588 * v, v, 1000);
    lemma_small_mod(v as nat, 1000);
}

/// Within one second, `953 * v mod 1000` is the only slot whose ordering
/// position is `v`.
proof fn lemma_order_only_inverse(t: int, v: int)
    requires
        0 <= t < 1000,
        0 <= v < 1000,
        order_of(t) == v,
    ensures
        t == (953 * v) % 1000,
{
    lemma_small_mod(t as nat, 1000);
    assert(v == (617 * t) % 1000);
    lemma_mul_mod_noop_right(953, 617 * t, 1000);
    assert(953 * (617 * t) == 1000 * (588 * t) + t) by (nonlinear_arith);
    lemma_mod_multiples_vanish(588 * t, t, 1000);
}

/// Within the first second, every ordering position is hit exactly once:
/// by the slot `953 * v mod 1000` if the range covers it, else not at all.
proof fn lemma_count_hits_window(v: int, lo: int, hi: int)
    requires
        0 <= v < 1000,
        0 <= lo <= hi <= 1000,
    ensures
        count_hits(v, lo, hi) == if lo <= (953 * v) % 1000 < hi {
            1nat
        } else {
            0nat
        },
    decreases hi - lo,
{
    if lo < hi {
        lemma_count_hits_window(v, lo, hi - 1);
        if order_of(hi - 1) == v {
            lemma_order_only_inverse(hi - 1, v);
        } else if hi - 1 == (953 * v) % 1000 {
            lemma_order_inverse(v);
        }
    }
}

/// Raising the rate by one adds exactly the milliseconds whose ordering
/// position equals the old rate.
proof fn lemma_count_emits_succ(rate: u16, lo: int, hi: int)
    requires
        rate < 1000,
    ensures
        count_emits((rate + 1) as u16, lo, hi) == count_emits(rate, lo, hi) + count_hits(
            rate as int,
            lo,
            hi,
        ),
    decreases hi - lo,
{
    if lo < hi {
        lemma_count_emits_succ(rate, lo, hi - 1);
        lemma_order_bounds(hi - 1);
    }
}

/// Over the first second, a continuous stream emits exactly `rate`
/// particles.
proof fn lemma_count_emits_window_base(rate: u16)
    requires
        rate <= 1000,
    ensures
        count_emits(rate, 0, 1000) == rate as nat,
    decreases rate,
{
    if rate == 0 {
        lemma_count_emits_rate_zero(0, 1000);
    } else {
        let prev = (rate - 1) as u16;
        lemma_count_emits_window_base(prev);
        lemma_count_emits_succ(prev, 0, 1000);
        lemma_count_hits_window(prev as int, 0, 1000);
        lemma_mod_bound(953 * (prev as int), 1000);
    }
}

/// Sliding a one-second window one millisecond forward keeps its emission
/// count: the millisecond that leaves and the one that enters share their
/// ordering position.
proof fn lemma_count_emits_window_shift(rate: u16, a: int)
    ensures
        count_emits(rate, a, a + 1000) == count_emits(rate, a + 1, a + 1001),
{
    lemma_count_emits_split(rate, a, a + 1, a + 1001);
    lemma_count_emits_split(rate, a, a + 1000, a + 1001);
    lemma_order_periodic(a);
    assert(count_emits(rate, a, a) == 0);
    assert(count_emits(rate, a + 1000, a + 1000) == 0);
    assert(count_emits(rate, a, a + 1) == if emits_at(rate, a) {
        1nat
    } else {
        0nat
    });
    assert(count_emits(rate, a + 1000, a + 1001) == if emits_at(rate, a + 1000) {
        1nat
    } else {
        0nat
    });
}

/// Every one-second window has the same emission count as the first one.
proof fn lemma_count_emits_window_translate(rate: u16, a: int)
    requires
        0 <= a,
    ensures
        count_emits(rate, a, a + 1000) == count_emits(rate, 0, 1000),
    decreases a,
{
    if a > 0 {
        lemma_count_emits_window_translate(rate, a - 1);
        lemma_count_emits_window_shift(rate, a - 1);
    }
}

/// Emission counts add up over adjacent millisecond ranges.
pub proof fn lemma_count_emits_split(rate: u16, a: int, b: int, c: int)
    requires
        a <= b <= c,
    ensures
        count_emits(rate, a, b) + count_emits(rate, b, c) == count_emits(rate, a, c),
    decreases c - b,
{
    if b < c {
        lemma_count_emits_split(rate, a, b, c - 1);
    }
}

/// A continuous stream at rate zero never emits, whatever interval is
/// queried.
pub proof fn lemma_count_emits_rate_zero(lo: int, hi: int)
    ensures
        count_emits(0u16, lo, hi) == 0,
    decreases hi - lo,
{
    if lo < hi {
        lemma_count_emits_rate_zero(lo, hi - 1);
        lemma_order_bounds(hi - 1);
    }
}

/// A continuous stream at the cap of 1000 particles per second emits in
/// every single millisecond.
pub proof fn lemma_count_emits_rate_cap(lo: int, hi: int)
    requires
        lo <= hi,
    ensures
        count_emits(1000u16, lo, hi) == (hi - lo) as nat,
    decreases hi - lo,
{
    if lo < hi {
        lemma_count_emits_rate_cap(lo, hi - 1);
        lemma_order_bounds(hi - 1);
    }
}

/// Emission is interval-decomposition invariant: however a queried span is
/// cut into adjacent intervals, the emitted counts add up to the count of
/// the whole span. In particular a burst is counted by exactly one of the
/// adjacent intervals: the one that contains its delay.
pub proof fn lemma_emission_decomposes(m: ModeImpl, a: int, b: int, c: int)
    requires
        a <= b <= c,
    ensures
        emission_count(m, a, b) + emission_count(m, b, c) == emission_count(m, a, c),
{
    match m {
        ModeImpl::Burst { count, delay } => {
        },
        ModeImpl::Continuous { rate, start, end } => {
            let s = start as int;
            let e = end as int;
            if s > e {
                // the stream's window is empty; every clipped query is empty
            } else if b <= s {
                // the first interval misses the window entirely
            } else if b >= e {
                // the second interval misses the window entirely
            } else {
                // the cut falls inside the window and splits the clipped span
                lemma_count_emits_split(rate, max(a, s), b, min(c, e));
            }
        },
    }
}

/// A mode whose emission window has elapsed emits nothing in any future
/// interval: the decision to stop the animation loop is final.
pub proof fn lemma_elapsed_mode_never_emits(m: ModeImpl, now: u64, a: int, b: int)
    requires
        mode_elapsed(m, now),
        now <= a,
    ensures
        emission_count(m, a, b) == 0,
{
}

/// A burst is counted by exactly the queried interval that contains its
/// delay: any interval that misses the delay yields zero, the one that
/// contains it yields the full count.
pub proof fn lemma_burst_counts_exactly_once(count: usize, delay: u64, a: int, b: int)
    ensures
        emission_count((ModeImpl::Burst { count, delay }), a, b) == if a <= delay < b {
            count as nat
        } else {
            0nat
        },
{
}

/// Over any full one-second window inside the active range of a continuous
/// stream, exactly `rate` particles are emitted, wherever the window starts.
pub proof fn lemma_continuous_full_second(rate: u16, start: u64, end: u64, a: int)
    requires
        rate <= 1000,
        start <= a,
        a + 1000 <= end,
    ensures
        emission_count((ModeImpl::Continuous { rate, start, end }), a, a + 1000) == rate as nat,
{
    lemma_count_emits_window_translate(rate, a);
    lemma_count_emits_window_base(rate);
}

/// A continuous stream at rate zero emits nothing in any queried interval.
pub proof fn lemma_continuous_rate_zero(start: u64, end: u64, a: int, b: int)
    ensures
        emission_count((ModeImpl::Continuous { rate: 0u16, start, end }), a, b) == 0,
{
    lemma_count_emits_rate_zero(max(a, start as int), min(b, end as int));
}

/// A continuous stream at the cap of 1000 particles per second emits in
/// every millisecond of its window.
pub proof fn lemma_continuous_rate_cap(start: u64, end: u64, a: int, b: int)
    requires
        start <= a <= b <= end,
    ensures
        emission_count((ModeImpl::Continuous { rate: 1000u16, start, end }), a, b) == (b
            - a) as nat,
{
    lemma_count_emits_rate_cap(a, b);
}

impl Default for Mode {
    /// The default mode streams 100 particles per second, indefinitely.
    fn default() -> (m: Self)
        ensures
            m@ == (ModeImpl::Continuous { rate: 100, start: 0, end: u64::MAX }),
    {
        Self::continuous(100)
    }
}

} // verus!
