//! A fail-fast differential session: a smoke test of fixed cases, then a run
//! of sampled cases. The session decides; its driver calls the oracle and the
//! reference, and hands each answer back as an event.

use crate::rng::{gen_nonzero_signed_wad, gen_wad_for_exp, max_positive_sample, EXP_INPUT_BOUND};
use crate::decimal::{dec_digits, lemma_decode_scale_up, wad_text, zero_code};
use crate::wad::{to_wad, wad, WI256, WU256, WAD_SCALE};
use rand::rngs::ThreadRng;
use vstd::prelude::*;

verus! {

/// The function under test.
#[derive(Clone, Copy, Debug, PartialEq, Eq, Structural)]
pub enum MathFn {
    /// The natural logarithm, sampled over non-negative inputs.
    Ln,
    /// The exponential, sampled over its bounded domain.
    Exp,
}

/// How fuzz inputs are drawn.
#[derive(Clone, Copy, Debug, PartialEq, Eq, Structural)]
pub enum Sampler {
    /// Whole non-negative 256-bit integers, scaled up to WADs.
    UnboundedPositive,
    /// Raw WADs from `[-EXP_INPUT_BOUND, EXP_INPUT_BOUND]`.
    BoundedSymmetric,
}

/// The two fixed cases that open a session.
#[derive(Clone, Copy, Debug, PartialEq, Eq, Structural)]
pub enum SmokeCase {
    /// An input whose raw answer is known exactly.
    Exact,
    /// An input whose answer is held against the reference.
    Reference,
}

/// Where a session stands.
#[derive(Clone, Copy, Debug, PartialEq, Eq, Structural)]
pub enum Phase {
    Init,
    SmokeTest(SmokeCase),
    Fuzzing,
    /// Every case passed.
    Done,
    /// A case disagreed with its expected value.
    Failed,
    /// The oracle could not be reached.
    Aborted,
}

/// What the driver does next.
#[derive(Clone, Copy, Debug)]
pub enum Action {
    /// Ask the oracle for `input`; the raw answer must be `expected`.
    CheckExact { input: WI256, expected: u64 },
    /// Ask the oracle for `input` and hold its answer against the reference.
    /// Where `enforced` is false the answer is only shown.
    CheckReference { input: WI256, enforced: bool },
    /// Draw an input with `fuzz_input`, ask the oracle and hold its answer
    /// against the reference.
    CheckSample,
    /// The session is over: see its phase.
    Stop,
}

/// What the driver reports back.
#[derive(Clone, Copy, Debug)]
pub enum Event {
    /// The oracle's raw answer for `input`.
    Answered { input: WI256, raw: WI256 },
    /// Whether the oracle's answer for `input` is within tolerance of the
    /// reference.
    Compared { input: WI256, within: bool },
    /// The oracle could not be reached.
    CommFailure,
}

/// A session over one function: `runs` sampled cases after the smoke test.
#[derive(Clone, Copy, Debug)]
pub struct Session {
    pub target: MathFn,
    pub runs: u64,
    /// The sampled cases that passed so far.
    pub passed: u64,
    pub phase: Phase,
    /// The input of the case that failed, once one did.
    pub offending: Option<WI256>,
}

/// The strategy that draws inputs for `f`.
pub open spec fn sampler_of(f: MathFn) -> Sampler {
    match f {
        MathFn::Ln => Sampler::UnboundedPositive,
        MathFn::Exp => Sampler::BoundedSymmetric,
    }
}

/// The raw input of the exact smoke case: one for the logarithm, zero for the
/// exponential.
pub open spec fn exact_input(f: MathFn) -> int {
    match f {
        MathFn::Ln => wad(),
        MathFn::Exp => 0,
    }
}

/// The raw answer owed on the exact smoke case: ln 1 = 0 and exp 0 = 1.
pub open spec fn exact_output(f: MathFn) -> int {
    match f {
        MathFn::Ln => 0,
        MathFn::Exp => wad(),
    }
}

/// The raw input of the reference smoke case: 999 for the logarithm, 42 for
/// the exponential.
pub open spec fn reference_input(f: MathFn) -> int {
    match f {
        MathFn::Ln => 999 * wad(),
        MathFn::Exp => 42 * wad(),
    }
}

/// Whether the reference smoke case must pass, or is only shown.
pub open spec fn reference_enforced(f: MathFn) -> bool {
    f == MathFn::Ln
}

/// Whether `x` is an input that the sampler for `f` can give.
pub open spec fn sampled_input(f: MathFn, x: int) -> bool {
    match f {
        MathFn::Ln => 0 <= x && x % wad() == 0 && x / wad() <= max_positive_sample(),
        MathFn::Exp => -EXP_INPUT_BOUND <= x <= EXP_INPUT_BOUND,
    }
}

/// Whether the session still waits for answers.
pub open spec fn is_active(p: Phase) -> bool {
    match p {
        Phase::SmokeTest(_) | Phase::Fuzzing => true,
        _ => false,
    }
}

/// The phase after the smoke test: fuzzing, or done where no run is asked.
pub open spec fn after_smoke(s: Session) -> Phase {
    if s.runs == 0 {
        Phase::Done
    } else {
        Phase::Fuzzing
    }
}

/// `s` stopped at a failure of the case `input`.
pub open spec fn failed_at(s: Session, input: WI256) -> Session {
    Session { phase: Phase::Failed, offending: Some(input), ..s }
}

/// The session after `e`. A failed case or a lost oracle ends it at once; an
/// event that answers nothing that was asked leaves it as it is.
pub open spec fn next(s: Session, e: Event) -> Session {
    if is_active(s.phase) && e is CommFailure {
        Session { phase: Phase::Aborted, ..s }
    } else {
        match (s.phase, e) {
            (Phase::SmokeTest(SmokeCase::Exact), Event::Answered { input, raw }) => {
                if raw@ == exact_output(s.target) {
                    Session { phase: Phase::SmokeTest(SmokeCase::Reference), ..s }
                } else {
                    failed_at(s, input)
                }
            },
            (Phase::SmokeTest(SmokeCase::Reference), Event::Compared { input, within }) => {
                if within || !reference_enforced(s.target) {
                    Session { phase: after_smoke(s), ..s }
                } else {
                    failed_at(s, input)
                }
            },
            (Phase::Fuzzing, Event::Compared { input, within }) => {
                if within {
                    let passed = (s.passed + 1) as u64;
                    Session {
                        passed,
                        phase: if passed == s.runs { Phase::Done } else { Phase::Fuzzing },
                        ..s
                    }
                } else {
                    failed_at(s, input)
                }
            },
            _ => s,
        }
    }
}

/// Whether `a` is what the driver does in the state `s`.
pub open spec fn action_of(s: Session, a: Action) -> bool {
    match a {
        Action::CheckExact { input, expected } => s.phase == Phase::SmokeTest(SmokeCase::Exact)
            && input@ == exact_input(s.target) && expected == exact_output(s.target),
        Action::CheckReference { input, enforced } => s.phase == Phase::SmokeTest(
            SmokeCase::Reference,
        ) && input@ == reference_input(s.target) && enforced == reference_enforced(s.target),
        Action::CheckSample => s.phase == Phase::Fuzzing,
        Action::Stop => !is_active(s.phase),
    }
}

/// The sampler that draws inputs for `f`.
pub fn sampler_for(f: MathFn) -> (r: Sampler)
    ensures
        r == sampler_of(f),
{
    match f {
        MathFn::Ln => Sampler::UnboundedPositive,
        MathFn::Exp => Sampler::BoundedSymmetric,
    }
}

/// Draws the raw input that the oracle gets for `f`. For the logarithm a
/// non-negative sample is scaled up, which never overflows; for the
/// exponential the bounded sample is used as it is. `None` only where the
/// rejection sampler gave up.
pub fn fuzz_input(f: MathFn, rng: &mut ThreadRng) -> (r: Option<WI256>)
    ensures
        r.is_some() ==> sampled_input(f, r.unwrap()@),
        f == MathFn::Exp ==> r.is_some(),
{
    match sampler_for(f) {
        Sampler::UnboundedPositive => {
            match gen_nonzero_signed_wad(rng) {
                Some(n) => {
                    proof {
                        let k = n@;
                        vstd::arithmetic::div_mod::lemma_div_multiples_vanish(k, wad());
                        vstd::arithmetic::div_mod::lemma_mod_multiples_basic(k, wad());
                        assert(k * wad() <= max_positive_sample() * wad()) by (nonlinear_arith)
                            requires
                                0 <= k <= max_positive_sample(),
                        ;
                        vstd::arithmetic::div_mod::lemma_fundamental_div_mod(
                            crate::wad::half_range() - 1,
                            wad(),
                        );
                        assert(0 <= k * wad()) by (nonlinear_arith)
                            requires
                                0 <= k,
                        ;
                    }
                    let w = to_wad(n).unwrap();
                    Some(w)
                },
                None => None,
            }
        },
        Sampler::BoundedSymmetric => Some(gen_wad_for_exp(rng)),
    }
}

impl Session {
    /// The invariant of a session: no pass before fuzzing, no more passes
    /// than runs, a finished run has them all, and a failure names its input.
    pub open spec fn wf(&self) -> bool {
        &&& self.passed <= self.runs
        &&& (self.phase == Phase::Init || self.phase is SmokeTest) ==> self.passed == 0
        &&& self.phase == Phase::Fuzzing ==> self.passed < self.runs
        &&& self.phase == Phase::Done ==> self.passed == self.runs
        &&& self.phase == Phase::Failed ==> self.offending.is_some()
    }

    /// A session over `target` with `runs` sampled cases, not yet started.
    pub fn new(target: MathFn, runs: u64) -> (r: Session)
        ensures
            r == (Session { target, runs, passed: 0, phase: Phase::Init, offending: None }),
            r.wf(),
    {
        Session { target, runs, passed: 0, phase: Phase::Init, offending: None }
    }

    /// Starts the smoke test: the first action is the exact case.
    pub fn start(&mut self) -> (a: Action)
        requires
            old(self).phase == Phase::Init,
            old(self).wf(),
        ensures
            *final(self) == (Session { phase: Phase::SmokeTest(SmokeCase::Exact), ..*old(self) }),
            final(self).wf(),
            action_of(*final(self), a),
    {
        self.phase = Phase::SmokeTest(SmokeCase::Exact);
        self.action()
    }

    /// What the driver does in the current state.
    pub fn action(&self) -> (a: Action)
        requires
            self.phase != Phase::Init,
        ensures
            action_of(*self, a),
    {
        match self.phase {
            Phase::SmokeTest(SmokeCase::Exact) => {
                let (input, expected) = match self.target {
                    MathFn::Ln => (to_wad(WI256::from_i128(1)).unwrap(), 0u64),
                    MathFn::Exp => (to_wad(WI256::from_i128(0)).unwrap(), WAD_SCALE as u64),
                };
                Action::CheckExact { input, expected }
            },
            Phase::SmokeTest(SmokeCase::Reference) => {
                let input = match self.target {
                    MathFn::Ln => to_wad(WI256::from_i128(999)).unwrap(),
                    MathFn::Exp => to_wad(WI256::from_i128(42)).unwrap(),
                };
                Action::CheckReference { input, enforced: self.target == MathFn::Ln }
            },
            Phase::Fuzzing => Action::CheckSample,
            _ => Action::Stop,
        }
    }

    /// Takes the driver's answer to the last action, moves to the next state
    /// and says what to do there.
    pub fn step(&mut self, e: Event) -> (a: Action)
        requires
            old(self).phase != Phase::Init,
            old(self).wf(),
        ensures
            *final(self) == next(*old(self), e),
            final(self).wf(),
            action_of(*final(self), a),
    {
        let active = match self.phase {
            Phase::SmokeTest(_) | Phase::Fuzzing => true,
            _ => false,
        };
        match e {
            Event::CommFailure => {
                if active {
                    self.phase = Phase::Aborted;
                }
            },
            Event::Answered { input, raw } => {
                if self.phase == Phase::SmokeTest(SmokeCase::Exact) {
                    let expected: u64 = match self.target {
                        MathFn::Ln => 0,
                        MathFn::Exp => WAD_SCALE as u64,
                    };
                    if raw.equals_u64(expected) {
                        self.phase = Phase::SmokeTest(SmokeCase::Reference);
                    } else {
                        self.phase = Phase::Failed;
                        self.offending = Some(input);
                    }
                }
            },
            Event::Compared { input, within } => {
                if self.phase == Phase::SmokeTest(SmokeCase::Reference) {
                    if within || self.target != MathFn::Ln {
                        self.phase = if self.runs == 0 { Phase::Done } else { Phase::Fuzzing };
                    } else {
                        self.phase = Phase::Failed;
                        self.offending = Some(input);
                    }
                } else if self.phase == Phase::Fuzzing {
                    if within {
                        self.passed = self.passed + 1;
                        if self.passed == self.runs {
                            self.phase = Phase::Done;
                        }
                    } else {
                        self.phase = Phase::Failed;
                        self.offending = Some(input);
                    }
                }
            },
        }
        self.action()
    }
}

/// Whether the oracle is alive: it names itself `Fuzz` and adds 1 and 2 to 3.
pub fn liveness_ok(name: &Vec<u8>, sum: WU256) -> (r: bool)
    ensures
        r == (name@ == seq![70u8, 117u8, 122u8, 122u8] && sum@ == 3),
{
    let named = name.len() == 4 && name[0] == 70u8 && name[1] == 117u8 && name[2] == 122u8
        && name[3] == 122u8;
    proof {
        if named {
            assert(name@ =~= seq![70u8, 117u8, 122u8, 122u8]);
        }
    }
    named && sum.limbs[0] == 3 && sum.limbs[1] == 0 && sum.limbs[2] == 0 && sum.limbs[3] == 0
}

/// The logarithm's exact smoke case asks for ln of one scaled up, and passes
/// if and only if the raw answer is zero, the WAD whose text is
/// `0.000000000000000000`.
pub proof fn lemma_ln_of_one(s: Session, input: WI256, raw: WI256)
    requires
        s.target == MathFn::Ln,
        s.phase == Phase::SmokeTest(SmokeCase::Exact),
    ensures
        exact_input(s.target) == 1 * wad(),
        next(s, Event::Answered { input, raw }).phase != Phase::Failed <==> raw@ == 0,
        raw@ == 0 ==> wad_text(raw@) == dec_digits(0) + seq!['.' as u8] + Seq::new(
            18,
            |i: int| zero_code(),
        ),
{
    lemma_decode_scale_up(0);
}

/// The exponential's exact smoke case asks for exp of zero scaled up, and
/// passes if and only if the raw answer is exactly 10^18, the WAD whose text
/// is `1.000000000000000000`.
pub proof fn lemma_exp_of_zero(s: Session, input: WI256, raw: WI256)
    requires
        s.target == MathFn::Exp,
        s.phase == Phase::SmokeTest(SmokeCase::Exact),
    ensures
        exact_input(s.target) == 0 * wad(),
        next(s, Event::Answered { input, raw }).phase != Phase::Failed <==> raw@ == wad(),
        raw@ == wad() ==> wad_text(raw@) == dec_digits(1) + seq!['.' as u8] + Seq::new(
            18,
            |i: int| zero_code(),
        ),
{
    lemma_decode_scale_up(1);
}

/// A session that has stopped stays as it is, whatever comes after.
pub proof fn lemma_stopped_stays(s: Session, e: Event)
    requires
        !is_active(s.phase),
    ensures
        next(s, e) == s,
{
}

/// A sampled case out of tolerance fails the session at once and names its
/// input; one within tolerance counts one more pass.
pub proof fn lemma_fail_fast(s: Session, input: WI256, within: bool)
    requires
        s.phase == Phase::Fuzzing,
        s.wf(),
    ensures
        !within ==> next(s, Event::Compared { input, within }).phase == Phase::Failed
            && next(s, Event::Compared { input, within }).offending == Some(input),
        within ==> next(s, Event::Compared { input, within }).passed == s.passed + 1,
{
}

/// The session after each of `es` in turn.
pub open spec fn run(s: Session, es: Seq<Event>) -> Session
    decreases es.len(),
{
    if es.len() == 0 {
        s
    } else {
        run(next(s, es[0]), es.drop_first())
    }
}

/// A passing comparison for each of `inputs`.
pub open spec fn passes(inputs: Seq<WI256>) -> Seq<Event> {
    Seq::new(inputs.len(), |i: int| Event::Compared { input: inputs[i], within: true })
}

/// While fuzzing, as many passing cases as runs are left finish the session:
/// it is done, with every run passed.
pub proof fn lemma_all_pass_is_done(s: Session, inputs: Seq<WI256>)
    requires
        s.phase == Phase::Fuzzing,
        s.wf(),
        inputs.len() == s.runs - s.passed,
    ensures
        run(s, passes(inputs)).phase == Phase::Done,
        run(s, passes(inputs)).passed == s.runs,
    decreases inputs.len(),
{
    assert(inputs.len() > 0);
    let e = Event::Compared { input: inputs[0], within: true };
    assert(passes(inputs)[0] == e);
    let t = next(s, e);
    assert(t.passed == s.passed + 1);
    assert(passes(inputs).drop_first() =~= passes(inputs.drop_first()));
    assert(run(s, passes(inputs)) == run(t, passes(inputs.drop_first())));
    if t.phase == Phase::Fuzzing {
        lemma_all_pass_is_done(t, inputs.drop_first());
    } else {
        assert(passes(inputs.drop_first()).len() == 0);
    }
}

/// While fuzzing, after `k` passing cases the first failing one ends the
/// session as failed, naming its input, whatever events come after.
pub proof fn lemma_first_failure_stops(
    s: Session,
    inputs: Seq<WI256>,
    bad: WI256,
    rest: Seq<Event>,
)
    requires
        s.phase == Phase::Fuzzing,
        s.wf(),
        inputs.len() < s.runs - s.passed,
    ensures
        run(s, passes(inputs) + seq![Event::Compared { input: bad, within: false }] + rest).phase
            == Phase::Failed,
        run(s, passes(inputs) + seq![Event::Compared { input: bad, within: false }] + rest).offending
            == Some(bad),
        run(s, passes(inputs) + seq![Event::Compared { input: bad, within: false }] + rest).passed
            == s.passed + inputs.len(),
    decreases inputs.len(),
{
    let es = passes(inputs) + seq![Event::Compared { input: bad, within: false }] + rest;
    if inputs.len() == 0 {
        assert(es.drop_first() =~= rest);
        lemma_stopped_run(next(s, es[0]), rest);
    } else {
        let t = next(s, es[0]);
        assert(es.drop_first() =~= passes(inputs.drop_first()) + seq![
            Event::Compared { input: bad, within: false },
        ] + rest);
        lemma_first_failure_stops(t, inputs.drop_first(), bad, rest);
    }
}

/// A stopped session stays as it is over any run of events.
pub proof fn lemma_stopped_run(s: Session, es: Seq<Event>)
    requires
        !is_active(s.phase),
    ensures
        run(s, es) == s,
    decreases es.len(),
{
    if es.len() > 0 {
        lemma_stopped_run(next(s, es[0]), es.drop_first());
    }
}

/// A whole session: a started session whose exact smoke case gets the owed
/// raw answer, whose reference smoke case passes, and whose `runs` sampled
/// cases all pass, is done with every run passed.
pub proof fn lemma_passing_session_is_done(
    target: MathFn,
    runs: u64,
    exact: WI256,
    raw: WI256,
    reference: WI256,
    inputs: Seq<WI256>,
)
    requires
        raw@ == exact_output(target),
        inputs.len() == runs,
    ensures
        ({
            let s = Session {
                target,
                runs,
                passed: 0,
                phase: Phase::SmokeTest(SmokeCase::Exact),
                offending: None,
            };
            let es = seq![
                Event::Answered { input: exact, raw },
                Event::Compared { input: reference, within: true },
            ] + passes(inputs);
            run(s, es).phase == Phase::Done && run(s, es).passed == runs
        }),
{
    let s = Session {
        target,
        runs,
        passed: 0,
        phase: Phase::SmokeTest(SmokeCase::Exact),
        offending: None,
    };
    let es = seq![
        Event::Answered { input: exact, raw },
        Event::Compared { input: reference, within: true },
    ] + passes(inputs);
    let s1 = next(s, es[0]);
    let s2 = next(s1, es[1]);
    assert(s1.phase == Phase::SmokeTest(SmokeCase::Reference));
    assert(s2.phase == after_smoke(s));
    assert(es.drop_first().drop_first() =~= passes(inputs));
    assert(es.drop_first()[0] == es[1]);
    assert(run(s, es) == run(s1, es.drop_first()));
    assert(run(s1, es.drop_first()) == run(s2, passes(inputs)));
    if runs == 0 {
        assert(passes(inputs).len() == 0);
    } else {
        lemma_all_pass_is_done(s2, inputs);
    }
}

} // verus!
