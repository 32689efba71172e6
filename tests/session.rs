use rand::thread_rng;
use wadfuzz::{
    fuzz_input, liveness_ok, to_wad, wad_decimal_text, Action, Event, MathFn, Phase, Session,
    SmokeCase, WAD_SCALE, WI256, WU256,
};

/// The real number a WAD stands for, read from its exact text.
fn decode(w: WI256) -> f64 {
    String::from_utf8(wad_decimal_text(w)).unwrap().parse().unwrap()
}

/// The relative check with the candidate itself as denominator, and both
/// values taken as zero below 1e-15.
fn relative(reference: f64, candidate: f64, tol: f64) -> bool {
    if candidate.abs() < 1e-15 && reference.abs() < 1e-15 {
        return true;
    }
    (reference - candidate).abs() / candidate < tol
}

/// Runs a session against a simulated oracle whose answers are the
/// reference's times `factor` plus `shift`.
fn run(target: MathFn, runs: u64, factor: f64, shift: f64) -> (Session, u64) {
    let mut rng = thread_rng();
    let mut s = Session::new(target, runs);
    let mut action = s.start();
    let mut sampled: u64 = 0;
    loop {
        let event = match action {
            Action::CheckExact { input, expected } => {
                assert_eq!(s.phase, Phase::SmokeTest(SmokeCase::Exact));
                let raw = if input.equals_u64(WAD_SCALE as u64) || input.equals_u64(0) {
                    WI256::from_i128(expected as i128)
                } else {
                    WI256::from_i128(-1)
                };
                Event::Answered { input, raw }
            }
            Action::CheckReference { input, .. } => {
                let x = decode(input);
                let r = if target == MathFn::Ln { x.ln() } else { x.exp() };
                let c = r * factor + shift;
                Event::Compared { input, within: (r - c).abs() < 1e-10 || target == MathFn::Exp }
            }
            Action::CheckSample => {
                sampled += 1;
                let input = fuzz_input(target, &mut rng).unwrap();
                let x = decode(input);
                let within = match target {
                    MathFn::Ln => {
                        let r = x.ln();
                        let c = r * factor + shift;
                        (r - c).abs() < 1e-10
                    }
                    MathFn::Exp => {
                        let r = x.exp();
                        let c = r * factor + shift;
                        relative(r, c, 0.001)
                    }
                };
                Event::Compared { input, within }
            }
            Action::Stop => break,
        };
        action = s.step(event);
    }
    (s, sampled)
}

#[test]
fn log_session_of_fifty_runs_is_done() {
    let (s, sampled) = run(MathFn::Ln, 50, 1.0, 0.0);
    assert_eq!(s.phase, Phase::Done);
    assert_eq!(s.passed, 50);
    assert_eq!(sampled, 50);
    assert!(s.offending.is_none());
}

#[test]
fn log_session_with_shifted_oracle_fails_on_first_case() {
    let (s, _) = run(MathFn::Ln, 50, 1.0, 1e-9);
    assert_eq!(s.phase, Phase::Failed);
    assert_eq!(s.passed, 0);
    // The reference smoke case at 999 is the first to disagree.
    let offending = s.offending.unwrap();
    assert_eq!(offending.limbs, to_wad(WI256::from_i128(999)).unwrap().limbs);
}

#[test]
fn exp_session_with_correct_oracle_is_done() {
    let (s, sampled) = run(MathFn::Exp, 200, 1.0, 0.0);
    assert_eq!(s.phase, Phase::Done);
    assert_eq!(s.passed, 200);
    assert_eq!(sampled, 200);
}

#[test]
fn exp_session_with_perturbed_oracle_fails() {
    let (s, sampled) = run(MathFn::Exp, 1000, 1.002, 0.0);
    assert_eq!(s.phase, Phase::Failed);
    assert_eq!(s.passed + 1, sampled);
    assert!(s.offending.is_some());
}

#[test]
fn session_with_no_runs_is_done_after_smoke() {
    let (s, sampled) = run(MathFn::Exp, 0, 1.0, 0.0);
    assert_eq!(s.phase, Phase::Done);
    assert_eq!(sampled, 0);
}

#[test]
fn ln_of_one_must_be_zero() {
    let mut s = Session::new(MathFn::Ln, 3);
    let a = s.start();
    let input = match a {
        Action::CheckExact { input, expected } => {
            assert_eq!(expected, 0);
            input
        }
        _ => panic!("the smoke test opens with the exact case"),
    };
    assert!(input.equals_u64(1_000_000_000_000_000_000));
    let mut bad = s;
    s.step(Event::Answered { input, raw: WI256::from_i128(0) });
    assert_eq!(s.phase, Phase::SmokeTest(SmokeCase::Reference));
    bad.step(Event::Answered { input, raw: WI256::from_i128(1) });
    assert_eq!(bad.phase, Phase::Failed);
    assert_eq!(bad.offending.unwrap().limbs, input.limbs);
}

#[test]
fn exp_of_zero_must_be_one_wad() {
    let mut s = Session::new(MathFn::Exp, 3);
    let a = s.start();
    let input = match a {
        Action::CheckExact { input, expected } => {
            assert_eq!(expected, 1_000_000_000_000_000_000);
            input
        }
        _ => panic!("the smoke test opens with the exact case"),
    };
    assert!(input.equals_u64(0));
    let mut bad = s;
    let a = s.step(Event::Answered { input, raw: WI256::from_i128(1_000_000_000_000_000_000) });
    assert!(matches!(a, Action::CheckReference { enforced: false, .. }));
    bad.step(Event::Answered { input, raw: WI256::from_i128(999_999_999_999_999_999) });
    assert_eq!(bad.phase, Phase::Failed);
}

#[test]
fn exp_reference_smoke_case_is_only_shown() {
    let mut s = Session::new(MathFn::Exp, 1);
    s.start();
    let input = WI256::from_i128(0);
    s.step(Event::Answered { input, raw: WI256::from_i128(1_000_000_000_000_000_000) });
    let a = s.step(Event::Compared { input, within: false });
    assert!(matches!(a, Action::CheckSample));
    assert_eq!(s.phase, Phase::Fuzzing);
}

#[test]
fn communication_failure_aborts() {
    let mut s = Session::new(MathFn::Ln, 5);
    s.start();
    let a = s.step(Event::CommFailure);
    assert!(matches!(a, Action::Stop));
    assert_eq!(s.phase, Phase::Aborted);
    // A stopped session ignores what comes after.
    s.step(Event::Compared { input: WI256::from_i128(0), within: true });
    assert_eq!(s.phase, Phase::Aborted);
    assert_eq!(s.passed, 0);
}

#[test]
fn unexpected_event_changes_nothing() {
    let mut s = Session::new(MathFn::Ln, 5);
    s.start();
    let a = s.step(Event::Compared { input: WI256::from_i128(0), within: true });
    assert!(matches!(a, Action::CheckExact { .. }));
    assert_eq!(s.phase, Phase::SmokeTest(SmokeCase::Exact));
}

#[test]
fn liveness_checks_name_and_sum() {
    assert!(liveness_ok(&b"Fuzz".to_vec(), WU256::from_u128(3)));
    assert!(!liveness_ok(&b"Fizz".to_vec(), WU256::from_u128(3)));
    assert!(!liveness_ok(&b"Fuzz".to_vec(), WU256::from_u128(4)));
}
