//! Emission-mode behavior: constructors, burst timing, continuous rates.

use yew_confetti::{Mode, ModeImpl};

#[test]
fn burst_constructor_is_immediate() {
    let m = Mode::burst(250);
    assert!(m.is_burst());
    assert!(!m.is_continuous());
    assert!(matches!(*m.impl_ref(), ModeImpl::Burst { count: 250, delay: 0 }));
}

#[test]
fn delayed_burst_keeps_delay() {
    let m = Mode::delayed_burst(40, 250);
    assert!(m.is_burst());
    assert!(matches!(*m.impl_ref(), ModeImpl::Burst { count: 40, delay: 250 }));
}

#[test]
fn continuous_constructor_is_unbounded() {
    let m = Mode::continuous(100);
    assert!(m.is_continuous());
    assert!(!m.is_burst());
    assert!(matches!(
        *m.impl_ref(),
        ModeImpl::Continuous { rate: 100, start: 0, end: u64::MAX }
    ));
}

#[test]
fn default_mode_is_continuous_100() {
    assert_eq!(Mode::default(), Mode::continuous(100));
}

#[test]
fn delayed_and_finite_continuous_windows() {
    assert!(matches!(
        *Mode::delayed_continuous(10, 1500).impl_ref(),
        ModeImpl::Continuous { rate: 10, start: 1500, end: u64::MAX }
    ));
    assert!(matches!(
        *Mode::finite_continuous(10, 2000).impl_ref(),
        ModeImpl::Continuous { rate: 10, start: 0, end: 2000 }
    ));
    assert!(matches!(
        *Mode::delayed_finite_continuous(10, 1500, 2000).impl_ref(),
        ModeImpl::Continuous { rate: 10, start: 1500, end: 3500 }
    ));
}

#[test]
fn set_impl_overwrites_the_mode() {
    let mut m = Mode::burst(1);
    m.set_impl(ModeImpl::Continuous { rate: 7, start: 1, end: 2 });
    assert!(m.is_continuous());
    assert!(matches!(
        *m.impl_ref(),
        ModeImpl::Continuous { rate: 7, start: 1, end: 2 }
    ));
}

#[test]
fn burst_fires_only_in_the_interval_containing_its_delay() {
    let m = Mode::delayed_burst(40, 250);
    assert_eq!(m.particles_to_emit(0, 250), 0);
    assert_eq!(m.particles_to_emit(250, 251), 40);
    assert_eq!(m.particles_to_emit(200, 300), 40);
    assert_eq!(m.particles_to_emit(0, 1000), 40);
    assert_eq!(m.particles_to_emit(251, 10_000), 0);
    assert_eq!(m.particles_to_emit(0, 0), 0);
}

#[test]
fn zero_rate_never_emits() {
    let m = Mode::continuous(0);
    assert_eq!(m.particles_to_emit(0, 1000), 0);
    assert_eq!(m.particles_to_emit(12_345, 99_999), 0);
}

#[test]
fn full_rate_emits_every_millisecond() {
    let m = Mode::continuous(1000);
    assert_eq!(m.particles_to_emit(0, 1000), 1000);
    assert_eq!(m.particles_to_emit(500, 600), 100);
    assert_eq!(m.particles_to_emit(7, 8), 1);
}

#[test]
fn continuous_clips_to_its_window() {
    assert_eq!(Mode::finite_continuous(1000, 100).particles_to_emit(0, 500), 100);
    assert_eq!(Mode::delayed_continuous(1000, 200).particles_to_emit(0, 300), 100);
    assert_eq!(Mode::finite_continuous(1000, 100).particles_to_emit(100, 500), 0);
}

#[test]
fn any_full_second_window_emits_exactly_the_rate() {
    for rate in [1usize, 7, 100, 333, 500, 999, 1000] {
        let m = Mode::continuous(rate);
        for a in [0u64, 1, 123, 999, 5000, 1_000_000] {
            assert_eq!(m.particles_to_emit(a, a + 1000), rate as u64);
        }
    }
}

#[test]
fn emission_is_interval_decomposition_invariant() {
    let m = Mode::continuous(137);
    assert_eq!(
        m.particles_to_emit(50, 789) + m.particles_to_emit(789, 1450),
        m.particles_to_emit(50, 1450)
    );
    let mut pieces: u64 = 0;
    for b in 0..6u64 {
        pieces += m.particles_to_emit(b * 250, (b + 1) * 250);
    }
    assert_eq!(pieces, m.particles_to_emit(0, 1500));
}

#[test]
fn elapsed_tracks_the_emission_window() {
    assert!(!Mode::burst(5).elapsed(0));
    assert!(Mode::burst(5).elapsed(1));
    assert!(!Mode::delayed_burst(5, 300).elapsed(300));
    assert!(Mode::delayed_burst(5, 300).elapsed(301));
    assert!(!Mode::finite_continuous(10, 100).elapsed(100));
    assert!(Mode::finite_continuous(10, 100).elapsed(101));
    assert!(!Mode::continuous(10).elapsed(u64::MAX));
}
