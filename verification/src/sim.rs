//! Simulation driver: owns the live particles and the simulated clock,
//! advances time in bounded substeps, spawns what each cannon's mode
//! emits, prunes dead particles, and decides when the animation loop may
//! stop.
//!
//! The host drives it once per animation frame: it computes the raw gap
//! since the previous frame in milliseconds, asks for the spawn schedule,
//! samples one seed per schedule entry, and calls [`Simulation::step`].

use vstd::prelude::*;

use crate::config::{Cannon, ConfettiProps};
use crate::mode::{emission_count, mode_elapsed};
use crate::particle::{advanced, spawn_spec, Particle, SpawnSeed};

verus! {

use vstd::arithmetic::div_mod::{
    lemma_div_is_ordered, lemma_div_multiples_vanish, lemma_div_nonincreasing,
    lemma_div_pos_is_pos, lemma_fundamental_div_mod, lemma_mod_bound,
};
use vstd::arithmetic::mul::{lemma_mul_inequality, lemma_mul_is_distributive_add_other_way};

/// Raw frame gaps are clamped to this many milliseconds: after a longer
/// pause (a backgrounded tab, say) the excess time is dropped from the
/// simulated clock rather than replayed.
pub const MAX_FRAME_GAP_MS: u64 = 500;

/// Substeps are at most roughly this long, to bound the integration error
/// of decay and motion at low frame rates.
pub const SUBSTEP_MS: u64 = 100;

/// Milliseconds of simulated time that a raw frame gap really advances.
pub open spec fn clamped_gap(raw_ms: u64) -> u64 {
    if raw_ms > MAX_FRAME_GAP_MS {
        MAX_FRAME_GAP_MS
    } else {
        raw_ms
    }
}

/// Milliseconds of a raw frame gap that are skipped over by the simulated
/// clock without being simulated.
pub open spec fn skipped_gap(raw_ms: u64) -> u64 {
    if raw_ms > MAX_FRAME_GAP_MS {
        (raw_ms - MAX_FRAME_GAP_MS) as u64
    } else {
        0
    }
}

/// How many substeps a clamped frame gap is cut into: as few as possible
/// with none longer than [`SUBSTEP_MS`], and at least one.
pub open spec fn substeps_of(delta_ms: u64) -> u64 {
    if delta_ms == 0 {
        1
    } else {
        ((delta_ms + SUBSTEP_MS - 1) / (SUBSTEP_MS as int)) as u64
    }
}

/// Length of each substep: the clamped gap divided evenly among the
/// substeps, the remainder dropped.
pub open spec fn substep_len(delta_ms: u64) -> u64 {
    delta_ms / substeps_of(delta_ms)
}

/// Cannon index worn by each particle spawned for the interval
/// `[start, end)`, taking the cannons from index `i` on: cannon order,
/// each cannon contributing one entry per particle its mode emits.
pub open spec fn interval_schedule_from(
    cannons: Seq<Cannon>,
    start: int,
    end: int,
    i: int,
) -> Seq<usize>
    decreases cannons.len() - i,
{
    if i >= cannons.len() {
        Seq::empty()
    } else {
        Seq::new(emission_count(cannons[i].mode@, start, end), |j: int| i as usize)
            + interval_schedule_from(cannons, start, end, i + 1)
    }
}

/// The spawn schedule of one substep: all cannons in order.
pub open spec fn interval_schedule(cannons: Seq<Cannon>, start: int, end: int) -> Seq<usize> {
    interval_schedule_from(cannons, start, end, 0)
}

/// The spawn schedule of a whole frame: `n` substeps of `dt` milliseconds
/// starting at simulated time `t`.
pub open spec fn step_schedule(cannons: Seq<Cannon>, t: int, dt: int, n: int) -> Seq<usize>
    decreases n,
{
    if n <= 0 {
        Seq::empty()
    } else {
        interval_schedule(cannons, t, t + dt) + step_schedule(cannons, t + dt, dt, n - 1)
    }
}

/// The spawn schedule of the frame that a raw gap of `raw_ms` milliseconds
/// produces when the simulated clock stands at `last_time`.
pub open spec fn frame_schedule(last_time: u64, raw_ms: u64, cannons: Seq<Cannon>) -> Seq<usize> {
    step_schedule(
        cannons,
        last_time + skipped_gap(raw_ms),
        substep_len(clamped_gap(raw_ms)) as int,
        substeps_of(clamped_gap(raw_ms)) as int,
    )
}

/// One seed per schedule entry, each fitting the cannon that will spawn
/// it.
pub open spec fn seeds_match(
    seeds: Seq<SpawnSeed>,
    cannons: Seq<Cannon>,
    sched: Seq<usize>,
) -> bool {
    &&& seeds.len() == sched.len()
    &&& forall|k: int|
        0 <= k < sched.len() ==> (#[trigger] seeds[k]).wf(cannons[sched[k] as int])
}

/// The particles that a schedule and matching seeds spawn, in order.
pub open spec fn spawned_particles(
    cannons: Seq<Cannon>,
    sched: Seq<usize>,
    seeds: Seq<SpawnSeed>,
    props: ConfettiProps,
) -> Seq<Particle> {
    Seq::new(sched.len(), |k: int| spawn_spec(seeds[k], cannons[sched[k] as int], props))
}

/// All particles advanced by `dt_ms` milliseconds, the dead removed,
/// order kept.
pub open spec fn advanced_pruned(
    ps: Seq<Particle>,
    dt_ms: u64,
    props: ConfettiProps,
) -> Seq<Particle>
    decreases ps.len(),
{
    if ps.len() == 0 {
        Seq::empty()
    } else {
        let rest = advanced_pruned(ps.drop_last(), dt_ms, props);
        let q = advanced(ps.last(), dt_ms, props);
        if q.is_alive() {
            rest.push(q)
        } else {
            rest
        }
    }
}

/// The state after `n` substeps of `dt` milliseconds starting at
/// simulated time `t`: per substep, every cannon's emissions spawn
/// (consuming seeds in order), the clock moves to the end of the substep,
/// and every particle advances, the dead being pruned.
pub open spec fn run_substeps(
    ps: Seq<Particle>,
    t: int,
    dt: int,
    n: int,
    cannons: Seq<Cannon>,
    seeds: Seq<SpawnSeed>,
    props: ConfettiProps,
) -> (Seq<Particle>, int)
    decreases n,
{
    if n <= 0 {
        (ps, t)
    } else {
        let sched = interval_schedule(cannons, t, t + dt);
        let born = spawned_particles(cannons, sched, seeds, props);
        let stepped = advanced_pruned(ps + born, dt as u64, props);
        run_substeps(
            stepped,
            t + dt,
            dt,
            n - 1,
            cannons,
            seeds.skip(sched.len() as int),
            props,
        )
    }
}

/// Running substeps advances the clock by exactly the substeps' total
/// length, whatever is spawned or pruned.
pub proof fn lemma_run_substeps_clock(
    ps: Seq<Particle>,
    t: int,
    dt: int,
    n: int,
    cannons: Seq<Cannon>,
    seeds: Seq<SpawnSeed>,
    props: ConfettiProps,
)
    requires
        0 <= n,
    ensures
        run_substeps(ps, t, dt, n, cannons, seeds, props).1 == t + n * dt,
    decreases n,
{
    if n > 0 {
        let sched = interval_schedule(cannons, t, t + dt);
        let born = spawned_particles(cannons, sched, seeds, props);
        let stepped = advanced_pruned(ps + born, dt as u64, props);
        lemma_run_substeps_clock(
            stepped,
            t + dt,
            dt,
            n - 1,
            cannons,
            seeds.skip(sched.len() as int),
            props,
        );
        assert(t + dt + (n - 1) * dt == t + n * dt) by (nonlinear_arith);
    } else {
        assert(n * dt == 0) by (nonlinear_arith)
            requires
                n == 0,
        ;
    }
}

/// Break a raw frame gap into `(skipped, clamped, substeps, substep)`
/// milliseconds.
fn frame_shape(raw_ms: u64) -> (r: (u64, u64, u64, u64))
    ensures
        r.0 == skipped_gap(raw_ms),
        r.1 == clamped_gap(raw_ms),
        r.2 == substeps_of(clamped_gap(raw_ms)),
        r.3 == substep_len(clamped_gap(raw_ms)),
        1 <= r.2 <= 5,
        r.3 <= SUBSTEP_MS,
        r.2 * r.3 <= r.1,
        r.0 + r.1 == raw_ms,
{
    let skip: u64 = if raw_ms > MAX_FRAME_GAP_MS {
        raw_ms - MAX_FRAME_GAP_MS
    } else {
        0
    };
    let delta: u64 = if raw_ms > MAX_FRAME_GAP_MS {
        MAX_FRAME_GAP_MS
    } else {
        raw_ms
    };
    let n: u64 = if delta == 0 {
        1
    } else {
        (delta + (SUBSTEP_MS - 1)) / SUBSTEP_MS
    };
    proof {
        assert(1 <= n <= 5);
        lemma_fundamental_div_mod(delta as int, n as int);
        lemma_mod_bound(delta as int, n as int);
        lemma_div_nonincreasing(delta as int, n as int);
        lemma_div_pos_is_pos(delta as int, n as int);
        if delta > 0 {
            lemma_fundamental_div_mod(delta as int + (SUBSTEP_MS - 1), SUBSTEP_MS as int);
            lemma_mod_bound(delta as int + (SUBSTEP_MS - 1), SUBSTEP_MS as int);
            // each substep stays within SUBSTEP_MS: delta <= n * SUBSTEP_MS
            assert(delta <= n * SUBSTEP_MS && n * SUBSTEP_MS < delta + SUBSTEP_MS)
                by (nonlinear_arith)
                requires
                    n == (delta + (SUBSTEP_MS - 1)) as int / SUBSTEP_MS as int,
                    delta + (SUBSTEP_MS - 1) == SUBSTEP_MS * n + ((delta + (SUBSTEP_MS - 1))
                        % (SUBSTEP_MS as int)),
                    0 <= (delta + (SUBSTEP_MS - 1)) % (SUBSTEP_MS as int) < SUBSTEP_MS,
                    0 < delta,
                    SUBSTEP_MS == 100,
            ;
            lemma_div_is_ordered(delta as int, n as int * SUBSTEP_MS as int, n as int);
            lemma_div_multiples_vanish(SUBSTEP_MS as int, n as int);
        }
    }
    let dt: u64 = delta / n;
    (skip, delta, n, dt)
}

/// The animation state of one widget instance: the live particles and the
/// simulated clock.
pub struct Simulation {
    /// Live particles, in spawn order (later spawns draw on top).
    pub particles: Vec<Particle>,
    /// Milliseconds of simulated time consumed so far.
    pub last_time: u64,
}

impl Simulation {
    /// Every held particle is within bounds and alive: a dead particle is
    /// pruned by the same step that kills it, so it is reported dead
    /// exactly once and never lingers.
    pub open spec fn wf(&self) -> bool {
        forall|i: int|
            0 <= i < self.particles@.len() ==> (#[trigger] self.particles@[i]).wf()
                && self.particles@[i].is_alive()
    }

    /// A fresh simulation: no particles, clock at zero.
    pub fn new() -> (sim: Self)
        ensures
            sim.particles@ == Seq::<Particle>::empty(),
            sim.last_time == 0,
            sim.wf(),
    {
        Simulation { particles: Vec::new(), last_time: 0 }
    }

    /// Cannon index for each particle the next frame will spawn, in spawn
    /// order. The host samples one seed per entry, from that cannon's
    /// palettes, before calling [`Simulation::step`] with the same raw gap.
    pub fn spawn_schedule(&self, raw_delta_ms: u64, cannons: &Vec<Cannon>) -> (sched: Vec<usize>)
        requires
            raw_delta_ms <= u64::MAX - self.last_time,
        ensures
            sched@ == frame_schedule(self.last_time, raw_delta_ms, cannons@),
    {
        let ghost cs = cannons@;
        let (skip, delta, n, dt) = frame_shape(raw_delta_ms);
        let t0: u64 = self.last_time + skip;
        let ghost full = frame_schedule(self.last_time, raw_delta_ms, cs);
        proof {
            assert(full == step_schedule(cs, t0 as int, dt as int, n as int));
        }
        let mut out: Vec<usize> = Vec::new();
        let mut t: u64 = t0;
        let mut k: u64 = 0;
        while k < n
            invariant
                cs == cannons@,
                k <= n,
                n * dt <= MAX_FRAME_GAP_MS,
                t0 + n * dt <= u64::MAX,
                t as int == t0 + k * dt,
                full == out@ + step_schedule(cs, t as int, dt as int, (n - k) as int),
            decreases n - k,
        {
            proof {
                lemma_mul_inequality(k as int + 1, n as int, dt as int);
                lemma_mul_is_distributive_add_other_way(dt as int, k as int, 1);
            }
            let end: u64 = t + dt;
            let ghost rest = step_schedule(cs, end as int, dt as int, (n - (k + 1)) as int);
            proof {
                assert(step_schedule(cs, t as int, dt as int, (n - k) as int)
                    == interval_schedule(cs, t as int, end as int) + rest);
                assert(out@ + (interval_schedule(cs, t as int, end as int) + rest) =~= out@
                    + interval_schedule(cs, t as int, end as int) + rest);
            }
            let mut ci: usize = 0;
            while ci < cannons.len()
                invariant
                    cs == cannons@,
                    ci <= cs.len(),
                    end == t + dt,
                    full == out@ + interval_schedule_from(cs, t as int, end as int, ci as int)
                        + rest,
                decreases cs.len() - ci,
            {
                let c: u64 = cannons[ci].mode.particles_to_emit(t, end);
                let ghost tail = interval_schedule_from(cs, t as int, end as int, ci as int + 1);
                proof {
                    assert(Seq::new(
                        emission_count(cs[ci as int].mode@, t as int, end as int),
                        |j: int| (ci as int) as usize,
                    ) =~= Seq::new(c as nat, |_q: int| ci));
                    assert(interval_schedule_from(cs, t as int, end as int, ci as int)
                        =~= Seq::new(c as nat, |_q: int| ci) + tail);
                    assert(out@ + (Seq::new(c as nat, |_q: int| ci) + tail) + rest =~= out@
                        + Seq::new(c as nat, |_q: int| ci) + tail + rest);
                }
                let mut j: u64 = 0;
                while j < c
                    invariant
                        cs == cannons@,
                        j <= c,
                        full == out@ + Seq::new((c - j) as nat, |_q: int| ci) + tail + rest,
                    decreases c - j,
                {
                    let ghost prev = out@;
                    out.push(ci);
                    proof {
                        assert(out@ + Seq::new((c - j - 1) as nat, |_q: int| ci) + tail + rest
                            =~= prev + Seq::new((c - j) as nat, |_q: int| ci) + tail + rest);
                    }
                    j = j + 1;
                }
                proof {
                    assert(out@ + Seq::new(0nat, |_q: int| ci) + tail + rest =~= out@ + tail
                        + rest);
                }
                ci = ci + 1;
            }
            proof {
                assert(interval_schedule_from(cs, t as int, end as int, cs.len() as int)
                    =~= Seq::<usize>::empty());
                assert(out@ + Seq::<usize>::empty() + rest =~= out@ + rest);
            }
            t = end;
            k = k + 1;
        }
        proof {
            assert(out@ + step_schedule(cs, t as int, dt as int, 0) =~= out@);
        }
        out
    }

    /// Run one animation frame over `raw_delta_ms` milliseconds of raw
    /// wall-clock gap: the gap is clamped (excess time is skipped, not
    /// replayed), cut into substeps, and per substep every cannon's
    /// emissions spawn (consuming `seeds` in schedule order), the clock
    /// advances to the end of the substep, and every particle advances,
    /// the dead being pruned at once.
    pub fn step(
        &mut self,
        raw_delta_ms: u64,
        props: &ConfettiProps,
        cannons: &Vec<Cannon>,
        seeds: &Vec<SpawnSeed>,
    )
        requires
            old(self).wf(),
            props.wf(),
            forall|i: int| 0 <= i < cannons@.len() ==> (#[trigger] cannons@[i]).wf(),
            raw_delta_ms <= u64::MAX - old(self).last_time,
            seeds_match(
                seeds@,
                cannons@,
                frame_schedule(old(self).last_time, raw_delta_ms, cannons@),
            ),
        ensures
            final(self).particles@ == run_substeps(
                old(self).particles@,
                old(self).last_time + skipped_gap(raw_delta_ms),
                substep_len(clamped_gap(raw_delta_ms)) as int,
                substeps_of(clamped_gap(raw_delta_ms)) as int,
                cannons@,
                seeds@,
                *props,
            ).0,
            final(self).last_time as int == run_substeps(
                old(self).particles@,
                old(self).last_time + skipped_gap(raw_delta_ms),
                substep_len(clamped_gap(raw_delta_ms)) as int,
                substeps_of(clamped_gap(raw_delta_ms)) as int,
                cannons@,
                seeds@,
                *props,
            ).1,
            final(self).wf(),
    {
        let ghost cs = cannons@;
        let ghost sd = seeds@;
        let ghost props_g = *props;
        let (skip, _delta, n, dt) = frame_shape(raw_delta_ms);
        let ghost full = frame_schedule(self.last_time, raw_delta_ms, cs);
        self.last_time = self.last_time + skip;
        let ghost ps0 = self.particles@;
        let ghost t0 = self.last_time;
        proof {
            assert(full == step_schedule(cs, t0 as int, dt as int, n as int));
            assert(full.skip(0) =~= full);
            assert(sd.skip(0) =~= sd);
        }
        let mut seed_idx: usize = 0;
        let mut k: u64 = 0;
        while k < n
            invariant
                cs == cannons@,
                sd == seeds@,
                props_g == *props,
                props_g.wf(),
                forall|i: int| 0 <= i < cs.len() ==> (#[trigger] cs[i]).wf(),
                seeds_match(sd, cs, full),
                k <= n,
                dt <= MAX_FRAME_GAP_MS,
                self.last_time as int + (n - k) as int * (dt as int) <= u64::MAX,
                seed_idx <= sd.len(),
                full.skip(seed_idx as int) == step_schedule(
                    cs,
                    self.last_time as int,
                    dt as int,
                    (n - k) as int,
                ),
                self.wf(),
                run_substeps(ps0, t0 as int, dt as int, n as int, cs, sd, props_g)
                    == run_substeps(
                    self.particles@,
                    self.last_time as int,
                    dt as int,
                    (n - k) as int,
                    cs,
                    sd.skip(seed_idx as int),
                    props_g,
                ),
            decreases n - k,
        {
            proof {
                lemma_mul_inequality(1, (n - k) as int, dt as int);
                assert((n - k) as int * (dt as int) == (n - k - 1) as int * (dt as int)
                    + dt as int) by (nonlinear_arith);
            }
            let start: u64 = self.last_time;
            let end: u64 = start + dt;
            let ghost base = seed_idx as int;
            let ghost entry_ps = self.particles@;
            let ghost isched = interval_schedule(cs, start as int, end as int);
            let ghost rest = step_schedule(cs, end as int, dt as int, (n - (k + 1)) as int);
            proof {
                assert(step_schedule(cs, start as int, dt as int, (n - k) as int) == isched
                    + rest);
            }
            let mut ci: usize = 0;
            while ci < cannons.len()
                invariant
                    cs == cannons@,
                    sd == seeds@,
                    props_g == *props,
                    props_g.wf(),
                    forall|i: int| 0 <= i < cs.len() ==> (#[trigger] cs[i]).wf(),
                    seeds_match(sd, cs, full),
                    ci <= cs.len(),
                    end == start + dt,
                    0 <= base <= seed_idx as int,
                    seed_idx <= sd.len(),
                    full.skip(base) == isched + rest,
                    full.skip(seed_idx as int) == interval_schedule_from(
                        cs,
                        start as int,
                        end as int,
                        ci as int,
                    ) + rest,
                    self.particles@ == entry_ps + spawned_particles(
                        cs,
                        full.subrange(base, seed_idx as int),
                        sd.skip(base),
                        props_g,
                    ),
                    forall|i: int|
                        0 <= i < self.particles@.len() ==> (#[trigger] self.particles@[i]).wf()
                            && self.particles@[i].is_alive(),
                decreases cs.len() - ci,
            {
                let c: u64 = cannons[ci].mode.particles_to_emit(start, end);
                let ghost tail = interval_schedule_from(
                    cs,
                    start as int,
                    end as int,
                    ci as int + 1,
                );
                proof {
                    assert(interval_schedule_from(cs, start as int, end as int, ci as int)
                        =~= Seq::new(c as nat, |_q: int| ci) + tail);
                    assert(Seq::new(c as nat, |_q: int| ci) + tail + rest =~= (Seq::new(
                        c as nat,
                        |_q: int| ci,
                    ) + tail) + rest);
                }
                let mut j: u64 = 0;
                while j < c
                    invariant
                        cs == cannons@,
                        sd == seeds@,
                        props_g == *props,
                        props_g.wf(),
                        forall|i: int| 0 <= i < cs.len() ==> (#[trigger] cs[i]).wf(),
                        seeds_match(sd, cs, full),
                        ci < cs.len(),
                        end == start + dt,
                        j <= c,
                        0 <= base <= seed_idx as int,
                        seed_idx <= sd.len(),
                        full.skip(base) == isched + rest,
                        full.skip(seed_idx as int) == Seq::new((c - j) as nat, |_q: int| ci)
                            + tail + rest,
                        self.particles@ == entry_ps + spawned_particles(
                            cs,
                            full.subrange(base, seed_idx as int),
                            sd.skip(base),
                            props_g,
                        ),
                        forall|i: int|
                            0 <= i < self.particles@.len() ==> (
                            #[trigger] self.particles@[i]).wf()
                                && self.particles@[i].is_alive(),
                    decreases c - j,
                {
                    proof {
                        assert(full.skip(seed_idx as int).len() == (c - j) + tail.len()
                            + rest.len());
                        assert(seed_idx < full.len());
                        assert(full.skip(seed_idx as int)[0] == ci);
                        assert(full[seed_idx as int] == ci);
                        assert(sd[seed_idx as int].wf(cs[ci as int]));
                        assert(seeds@.len() == full.len());
                    }
                    let slen: usize = seeds.len();
                    let p = Particle::spawn(&seeds[seed_idx], &cannons[ci], props);
                    let ghost prev_ps = self.particles@;
                    self.particles.push(p);
                    proof {
                        assert(full.skip(seed_idx as int + 1) =~= full.skip(
                            seed_idx as int,
                        ).skip(1));
                        assert((Seq::new((c - j) as nat, |_q: int| ci) + tail + rest).skip(1)
                            =~= Seq::new((c - j - 1) as nat, |_q: int| ci) + tail + rest);
                        assert(full.skip(seed_idx as int + 1) =~= Seq::new(
                            (c - j - 1) as nat,
                            |_q: int| ci,
                        ) + tail + rest);
                        assert(full.subrange(base, seed_idx as int + 1) =~= full.subrange(
                            base,
                            seed_idx as int,
                        ).push(full[seed_idx as int]));
                        assert(p == spawn_spec(sd[seed_idx as int], cs[ci as int], props_g));
                        assert(spawned_particles(
                            cs,
                            full.subrange(base, seed_idx as int + 1),
                            sd.skip(base),
                            props_g,
                        ) =~= spawned_particles(
                            cs,
                            full.subrange(base, seed_idx as int),
                            sd.skip(base),
                            props_g,
                        ).push(spawn_spec(sd[seed_idx as int], cs[ci as int], props_g)));
                        assert(entry_ps + spawned_particles(
                            cs,
                            full.subrange(base, seed_idx as int),
                            sd.skip(base),
                            props_g,
                        ).push(p) =~= (entry_ps + spawned_particles(
                            cs,
                            full.subrange(base, seed_idx as int),
                            sd.skip(base),
                            props_g,
                        )).push(p));
                        assert(self.particles@ =~= entry_ps + spawned_particles(
                            cs,
                            full.subrange(base, seed_idx as int + 1),
                            sd.skip(base),
                            props_g,
                        ));
                        assert(seed_idx < slen);
                    }
                    seed_idx = seed_idx + 1;
                    j = j + 1;
                }
                proof {
                    assert(Seq::new(0nat, |_q: int| ci) + tail + rest =~= tail + rest);
                }
                ci = ci + 1;
            }
            proof {
                assert(interval_schedule_from(cs, start as int, end as int, cs.len() as int)
                    =~= Seq::<usize>::empty());
                assert(Seq::<usize>::empty() + rest =~= rest);
                assert(full.subrange(base, seed_idx as int) =~= isched);
            }
            let ghost mid_ps = self.particles@;
            let mut out: Vec<Particle> = Vec::new();
            let mut pi: usize = 0;
            while pi < self.particles.len()
                invariant
                    props_g == *props,
                    props_g.wf(),
                    pi <= self.particles@.len(),
                    mid_ps == self.particles@,
                    dt <= MAX_FRAME_GAP_MS,
                    forall|i: int|
                        0 <= i < self.particles@.len() ==> (
                        #[trigger] self.particles@[i]).wf()
                            && self.particles@[i].is_alive(),
                    out@ == advanced_pruned(mid_ps.take(pi as int), dt, props_g),
                    forall|i: int|
                        0 <= i < out@.len() ==> (#[trigger] out@[i]).wf()
                            && out@[i].is_alive(),
                decreases self.particles@.len() - pi,
            {
                let mut p: Particle = self.particles[pi].clone();
                let alive = p.advance(dt, props);
                proof {
                    assert(mid_ps.take(pi as int + 1).drop_last() =~= mid_ps.take(pi as int));
                    assert(mid_ps.take(pi as int + 1).last() == mid_ps[pi as int]);
                }
                if alive {
                    out.push(p);
                }
                pi = pi + 1;
            }
            proof {
                assert(mid_ps.take(mid_ps.len() as int) =~= mid_ps);
            }
            self.particles = out;
            self.last_time = end;
            proof {
                assert(sd.skip(base).skip(isched.len() as int) =~= sd.skip(seed_idx as int));
                assert(mid_ps == entry_ps + spawned_particles(
                    cs,
                    isched,
                    sd.skip(base),
                    props_g,
                ));
                assert(run_substeps(
                    entry_ps,
                    start as int,
                    dt as int,
                    (n - k) as int,
                    cs,
                    sd.skip(base),
                    props_g,
                ) == run_substeps(
                    self.particles@,
                    end as int,
                    dt as int,
                    (n - k - 1) as int,
                    cs,
                    sd.skip(seed_idx as int),
                    props_g,
                ));
            }
            k = k + 1;
        }
        proof {
            assert(run_substeps(
                self.particles@,
                self.last_time as int,
                dt as int,
                0,
                cs,
                sd.skip(seed_idx as int),
                props_g,
            ) == (self.particles@, self.last_time as int));
        }
    }

    /// Whether the animation loop may stop: no live particle is left and
    /// every cannon's emission window has fully elapsed, so no further
    /// frame could change the canvas.
    pub fn is_done(&self, cannons: &Vec<Cannon>) -> (done: bool)
        ensures
            done == (self.particles@.len() == 0 && (forall|i: int|
                0 <= i < cannons@.len() ==> mode_elapsed(
                    (#[trigger] cannons@[i]).mode@,
                    self.last_time,
                ))),
    {
        if self.particles.len() != 0 {
            return false;
        }
        let mut i: usize = 0;
        while i < cannons.len()
            invariant
                i <= cannons@.len(),
                forall|q: int|
                    0 <= q < i ==> mode_elapsed((#[trigger] cannons@[q]).mode@, self.last_time),
            decreases cannons@.len() - i,
        {
            if !cannons[i].mode.elapsed(self.last_time) {
                return false;
            }
            i = i + 1;
        }
        true
    }
}

} // verus!
