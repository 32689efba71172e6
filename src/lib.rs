//! Building blocks of a differential fuzz harness for 18-decimal fixed-point
//! ("WAD") math: 256-bit scaled integers, exact decimal rendering, input
//! samplers and the fail-fast session that drives a run.

pub mod decimal;
pub mod rng;
pub mod session;
pub mod wad;

pub use decimal::wad_decimal_text;
pub use rng::{gen_nonzero_signed_wad, gen_wad, gen_wad_for_exp, sample_from_draws, signed_sample_of, unsigned_sample_of, wad_max, EXP_INPUT_BOUND, MAX_DRAWS};
pub use session::{fuzz_input, liveness_ok, sampler_for, Action, Event, MathFn, Phase, Sampler, Session, SmokeCase};
pub use wad::{to_wad, WadError, WAD_SCALE, WI256, WU256};
