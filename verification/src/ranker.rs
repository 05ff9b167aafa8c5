//! The decay scheduler's decisions. A long-running loop (driven by the host
//! process) periodically demotes the mastery level of every card whose last
//! update is older than a configured staleness window, and stops cleanly on
//! cancellation. Everything the loop decides or computes lives here: the
//! configuration is validated once before the loop starts, the cutoff is
//! plain timestamp arithmetic, the demotion rule is pinned down card by card
//! by [`demote_stale`], and the reaction to a wait's outcome by
//! [`ranker_step`].

use vstd::prelude::*;
use crate::decimal::{all_dec_digits, dec_value, parse_u64};

verus! {

/// The scheduler's configuration as the host hands it over, still as text.
pub struct RankerConfig {
    pub run_frequency: String,
    pub period_elapsed: String,
}

/// A configuration the scheduler cannot start with.
#[derive(Debug, PartialEq, Eq, Structural)]
pub enum ConfigError {
    /// The run frequency is not a positive number of seconds.
    BadRunFrequency,
    /// The staleness window is not a positive number of seconds.
    BadStalenessWindow,
}

/// The validated configuration: how often to run, and how old a card's last
/// update must be before it decays, both in seconds and both positive.
#[derive(Debug)]
pub struct DecayConfig {
    pub run_frequency_secs: u64,
    pub staleness_window_secs: u64,
}

impl DecayConfig {
    /// Both durations are positive.
    pub open spec fn well_formed(&self) -> bool {
        self.run_frequency_secs > 0 && self.staleness_window_secs > 0
    }
}

/// Whether `s` spells a positive number of seconds that fits in a `u64`.
pub open spec fn valid_duration_str(s: Seq<char>) -> bool {
    s.len() > 0 && all_dec_digits(s) && 0 < dec_value(s) <= u64::MAX
}

/// Validates the scheduler's configuration: both durations must be positive
/// decimal numbers of seconds. This is the `Starting` phase of the scheduler;
/// an error here is returned to the caller without entering the loop.
pub fn validate_ranker_config(c: &RankerConfig) -> (r: Result<DecayConfig, ConfigError>)
    ensures
        match r {
            Ok(d) => ({
                &&& valid_duration_str(c.run_frequency@)
                &&& valid_duration_str(c.period_elapsed@)
                &&& d.run_frequency_secs == dec_value(c.run_frequency@)
                &&& d.staleness_window_secs == dec_value(c.period_elapsed@)
                &&& d.well_formed()
            }),
            Err(ConfigError::BadRunFrequency) => !valid_duration_str(c.run_frequency@),
            Err(ConfigError::BadStalenessWindow) => valid_duration_str(c.run_frequency@)
                && !valid_duration_str(c.period_elapsed@),
        },
{
    let frequency = match parse_u64(c.run_frequency.as_str()) {
        Some(v) => v,
        None => {
            return Err(ConfigError::BadRunFrequency);
        },
    };
    if frequency == 0 {
        return Err(ConfigError::BadRunFrequency);
    }
    let window = match parse_u64(c.period_elapsed.as_str()) {
        Some(v) => v,
        None => {
            return Err(ConfigError::BadStalenessWindow);
        },
    };
    if window == 0 {
        return Err(ConfigError::BadStalenessWindow);
    }
    Ok(DecayConfig { run_frequency_secs: frequency, staleness_window_secs: window })
}

/// The cutoff for one demotion pass: `now - window`, or nothing when that
/// difference cannot be represented.
pub fn compute_cutoff(now: i64, window_secs: u64) -> (r: Option<i64>)
    ensures
        match r {
            Some(c) => window_secs <= i64::MAX && c == now - window_secs,
            None => window_secs > i64::MAX || now - window_secs < i64::MIN,
        },
{
    if window_secs > i64::MAX as u64 {
        return None;
    }
    let w = window_secs as i64;
    if now >= i64::MIN + w {
        Some(now - w)
    } else {
        None
    }
}

/// Relies on `chrono::Local::now`: the current local time, as seconds since
/// the unix epoch. It needs the host clock at or after the epoch and a
/// resolvable local offset; chrono aborts otherwise, and offers no fallible
/// clock read that could turn that into a value.
#[verifier::external_body]
fn now_timestamp() -> i64 {
    chrono::Local::now().timestamp()
}

/// Reads the clock and computes the cutoff for a demotion pass issued now.
/// Whatever the clock returned, a successful result pairs that reading with a
/// cutoff lying exactly `window_secs` before it.
pub fn current_cutoff(window_secs: u64) -> (r: Option<(i64, i64)>)
    ensures
        match r {
            Some(p) => window_secs <= i64::MAX && p.1 == p.0 - window_secs,
            None => true,
        },
{
    let now = now_timestamp();
    match compute_cutoff(now, window_secs) {
        Some(cutoff) => Some((now, cutoff)),
        None => None,
    }
}

/// One card's stored mastery state: its level and the time of its last
/// update, in seconds since the unix epoch.
#[derive(Clone, Copy, Debug, PartialEq, Eq, Structural)]
pub struct CardState {
    pub lvl: i32,
    pub updated_at: i64,
}

/// What one demotion pass does to one card: a card last updated before the
/// cutoff whose level is above 1 loses exactly one level and has its update
/// time refreshed to `now`; every other card is untouched.
pub open spec fn demoted_card(c: CardState, cutoff: i64, now: i64) -> CardState {
    if c.updated_at < cutoff && c.lvl > 1 {
        CardState { lvl: (c.lvl - 1) as i32, updated_at: now }
    } else {
        c
    }
}

/// Law: one demotion pass decrements, by exactly one, the level of every card
/// that is stale (`updated_at < cutoff`) and above level 1, refreshing its
/// update time, and leaves every card at level 1 or updated at or after the
/// cutoff untouched. This is the whole effect of the scheduler's bulk
/// demotion statement, card by card.
pub fn demote_stale(cards: &Vec<CardState>, cutoff: i64, now: i64) -> (out: Vec<CardState>)
    ensures
        out@.len() == cards@.len(),
        forall|i: int|
            0 <= i < cards@.len() ==> out@[i] == demoted_card(#[trigger] cards@[i], cutoff, now),
{
    let mut out: Vec<CardState> = Vec::new();
    let n = cards.len();
    for i in 0..n
        invariant
            n == cards@.len(),
            out@.len() == i,
            forall|j: int| 0 <= j < i ==> out@[j] == demoted_card(#[trigger] cards@[j], cutoff, now),
    {
        let c = cards[i];
        if c.updated_at < cutoff && c.lvl > 1 {
            out.push(CardState { lvl: c.lvl - 1, updated_at: now });
        } else {
            out.push(c);
        }
    }
    out
}

/// Law (one whole demotion pass, in general): under a validated
/// configuration, a pass at time `now` issues exactly one bulk demotion whose
/// cutoff lies exactly `staleness_window_secs` before `now`: every card with
/// `updated_at < now - staleness_window_secs` and a level above 1 loses
/// exactly one level and has its update time refreshed to `now`, and every
/// other card is untouched. The pass is a single bulk rule over the whole
/// table's state, not a read-then-write per card. It yields nothing only when
/// `now - staleness_window_secs` is not representable.
pub fn demotion_pass(cards: &Vec<CardState>, now: i64, config: &DecayConfig) -> (r: Option<
    Vec<CardState>,
>)
    requires
        config.well_formed(),
    ensures
        match r {
            Some(out) => ({
                let cutoff = now - config.staleness_window_secs;
                &&& config.staleness_window_secs <= i64::MAX
                &&& cutoff >= i64::MIN
                &&& out@.len() == cards@.len()
                &&& forall|i: int|
                    0 <= i < cards@.len() ==> out@[i] == demoted_card(
                        #[trigger] cards@[i],
                        cutoff as i64,
                        now,
                    )
            }),
            None => config.staleness_window_secs > i64::MAX || now - config.staleness_window_secs
                < i64::MIN,
        },
{
    match compute_cutoff(now, config.staleness_window_secs) {
        Some(cutoff) => Some(demote_stale(cards, cutoff, now)),
        None => None,
    }
}

/// Where the scheduler stands: validating its configuration, looping, or
/// stopped.
#[derive(Clone, Copy, Debug, PartialEq, Eq, Structural)]
pub enum RankerPhase {
    Starting,
    Running,
    Stopped,
}

/// How one wait ended: the run-frequency interval elapsed, or the
/// cancellation signal fired.
#[derive(Clone, Copy, Debug, PartialEq, Eq, Structural)]
pub enum WaitOutcome {
    IntervalElapsed,
    Cancelled,
}

/// What the scheduler does next: run one demotion pass, wait for the next
/// tick or the cancellation signal, or stop for good.
#[derive(Clone, Copy, Debug, PartialEq, Eq, Structural)]
pub enum RankerAction {
    RunDemotion,
    Wait,
    Stop,
}

/// How one demotion pass ended: the bulk statement went through, or storage
/// failed.
#[derive(Clone, Copy, Debug, PartialEq, Eq, Structural)]
pub enum PassOutcome {
    Demoted,
    DemotionFailed,
}

/// Law: no demotion pass's outcome ends the loop. A storage failure is
/// absorbed (the host merely logs it), and the scheduler stays in `Running`
/// and waits for the next tick either way; only a configuration error before
/// the loop, or the cancellation signal, ends it.
pub fn after_demotion_pass(outcome: PassOutcome) -> (r: (RankerPhase, RankerAction))
    ensures
        r == (RankerPhase::Running, RankerAction::Wait),
{
    match outcome {
        PassOutcome::Demoted => (RankerPhase::Running, RankerAction::Wait),
        PassOutcome::DemotionFailed => (RankerPhase::Running, RankerAction::Wait),
    }
}

/// Law: the running scheduler's single decision point. When the interval
/// elapses it stays in `Running` and runs another demotion pass; the moment
/// cancellation is observed it moves to `Stopped` and performs no further
/// demotion.
pub fn ranker_step(outcome: WaitOutcome) -> (r: (RankerPhase, RankerAction))
    ensures
        outcome == WaitOutcome::Cancelled ==> r == (RankerPhase::Stopped, RankerAction::Stop),
        outcome == WaitOutcome::IntervalElapsed ==> r == (
            RankerPhase::Running,
            RankerAction::RunDemotion,
        ),
{
    match outcome {
        WaitOutcome::Cancelled => (RankerPhase::Stopped, RankerAction::Stop),
        WaitOutcome::IntervalElapsed => (RankerPhase::Running, RankerAction::RunDemotion),
    }
}

} // verus!
