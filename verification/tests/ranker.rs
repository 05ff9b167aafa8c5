use dealer::ranker::{
    after_demotion_pass, compute_cutoff, current_cutoff, demote_stale, demotion_pass, ranker_step,
    validate_ranker_config, CardState, ConfigError, DecayConfig, PassOutcome, RankerAction,
    RankerConfig, RankerPhase, WaitOutcome,
};

fn config(freq: &str, period: &str) -> RankerConfig {
    RankerConfig { run_frequency: freq.to_owned(), period_elapsed: period.to_owned() }
}

#[test]
fn a_positive_configuration_is_accepted() {
    let d = validate_ranker_config(&config("60", "86400")).unwrap();
    assert_eq!(d.run_frequency_secs, 60);
    assert_eq!(d.staleness_window_secs, 86400);
}

#[test]
fn a_bad_run_frequency_is_fatal() {
    assert_eq!(
        validate_ranker_config(&config("soon", "86400")).unwrap_err(),
        ConfigError::BadRunFrequency
    );
    assert_eq!(
        validate_ranker_config(&config("0", "86400")).unwrap_err(),
        ConfigError::BadRunFrequency
    );
    assert_eq!(
        validate_ranker_config(&config("", "86400")).unwrap_err(),
        ConfigError::BadRunFrequency
    );
}

#[test]
fn a_bad_staleness_window_is_fatal() {
    assert_eq!(
        validate_ranker_config(&config("60", "")).unwrap_err(),
        ConfigError::BadStalenessWindow
    );
    assert_eq!(
        validate_ranker_config(&config("60", "0")).unwrap_err(),
        ConfigError::BadStalenessWindow
    );
}

#[test]
fn the_cutoff_lies_one_window_before_now() {
    assert_eq!(compute_cutoff(1000, 400), Some(600));
    assert_eq!(compute_cutoff(0, 1), Some(-1));
    assert_eq!(compute_cutoff(i64::MIN, 1), None);
    assert_eq!(compute_cutoff(0, u64::MAX), None);
    if let Some((now, cutoff)) = current_cutoff(60) {
        assert_eq!(cutoff, now - 60);
    }
}

#[test]
fn one_pass_demotes_exactly_the_stale_cards_above_level_one() {
    let cards = vec![
        CardState { lvl: 3, updated_at: 50 },
        CardState { lvl: 1, updated_at: 50 },
        CardState { lvl: 4, updated_at: 100 },
        CardState { lvl: 2, updated_at: 99 },
    ];
    let out = demote_stale(&cards, 100, 500);
    assert_eq!(
        out,
        vec![
            CardState { lvl: 2, updated_at: 500 },
            CardState { lvl: 1, updated_at: 50 },
            CardState { lvl: 4, updated_at: 100 },
            CardState { lvl: 1, updated_at: 500 },
        ]
    );
}

#[test]
fn a_whole_pass_demotes_against_the_cutoff_one_window_before_now() {
    let config = DecayConfig { run_frequency_secs: 60, staleness_window_secs: 400 };
    let cards = vec![
        CardState { lvl: 3, updated_at: 599 },
        CardState { lvl: 3, updated_at: 600 },
        CardState { lvl: 1, updated_at: 0 },
    ];
    // now = 1000, so the cutoff is 600: only the first card is stale and above level 1
    let out = demotion_pass(&cards, 1000, &config).unwrap();
    assert_eq!(
        out,
        vec![
            CardState { lvl: 2, updated_at: 1000 },
            CardState { lvl: 3, updated_at: 600 },
            CardState { lvl: 1, updated_at: 0 },
        ]
    );
    let huge = DecayConfig { run_frequency_secs: 60, staleness_window_secs: u64::MAX };
    assert_eq!(demotion_pass(&cards, 1000, &huge), None);
}

#[test]
fn a_failed_pass_is_absorbed_and_the_loop_waits_on() {
    assert_eq!(
        after_demotion_pass(PassOutcome::DemotionFailed),
        (RankerPhase::Running, RankerAction::Wait)
    );
    assert_eq!(
        after_demotion_pass(PassOutcome::Demoted),
        (RankerPhase::Running, RankerAction::Wait)
    );
}

#[test]
fn cancellation_stops_the_scheduler_without_another_pass() {
    assert_eq!(
        ranker_step(WaitOutcome::Cancelled),
        (RankerPhase::Stopped, RankerAction::Stop)
    );
    assert_eq!(
        ranker_step(WaitOutcome::IntervalElapsed),
        (RankerPhase::Running, RankerAction::RunDemotion)
    );
}
