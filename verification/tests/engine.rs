use komari_monitor_rs::calendar::CalendarDate;
use komari_monitor_rs::config::{
    ConfigReader, LoadOutcome, RuntimeData, TrafficMode, UserConfig,
};
use komari_monitor_rs::network_saver::{
    billing_reset, clear_calibration, diff_config, reconcile_reboot, reported, saturating_delta,
    ConfigChange, Engine, EngineConfig, Phase, RebootPolicy, StartReport, TickReport,
};

fn settings() -> EngineConfig {
    EngineConfig {
        reset_day: 5,
        calibration_tx: 0,
        calibration_rx: 0,
        network_interval: 10,
        traffic_mode: TrafficMode::Both,
        disable_network_statistics: false,
    }
}

fn stored(boot_id: &str, accumulated: u64, current: u64) -> RuntimeData {
    RuntimeData {
        boot_id: boot_id.to_string(),
        boot_source_tx: 7,
        boot_source_rx: 8,
        current_boot_tx: current,
        current_boot_rx: current,
        accumulated_tx: accumulated,
        accumulated_rx: accumulated,
        last_reset_month: 3,
    }
}

fn on(year: i32, month: u8, day: u8) -> CalendarDate {
    CalendarDate { year, month, day }
}

fn running(state: RuntimeData, config: EngineConfig, flush_every: u32) -> Engine {
    let mut engine = Engine::new(config, flush_every);
    let token = state.boot_id.clone();
    engine.start(
        LoadOutcome::Loaded(state),
        RebootPolicy::CompareToken,
        &token,
        on(2024, 3, 10),
    );
    engine
}

#[test]
fn delta_is_what_lies_above_the_baseline() {
    assert_eq!(saturating_delta(150, 100), 50);
    assert_eq!(saturating_delta(100, 100), 0);
    assert_eq!(saturating_delta(u64::MAX, 0), u64::MAX);
}

#[test]
fn delta_is_zero_where_the_counter_fell_below_the_baseline() {
    assert_eq!(saturating_delta(99, 100), 0);
    assert_eq!(saturating_delta(0, u64::MAX), 0);
}

#[test]
fn reboot_folds_the_earlier_boot_into_the_accumulated_totals() {
    let mut state = stored("A", 100, 50);
    let folded = reconcile_reboot(&mut state, RebootPolicy::CompareToken, "B");
    assert!(folded);
    assert_eq!(
        state,
        RuntimeData {
            boot_id: "B".to_string(),
            boot_source_tx: 0,
            boot_source_rx: 0,
            current_boot_tx: 0,
            current_boot_rx: 0,
            accumulated_tx: 150,
            accumulated_rx: 150,
            last_reset_month: 3,
        }
    );
}

#[test]
fn restart_under_the_same_boot_leaves_the_state_alone() {
    let mut state = stored("A", 100, 50);
    let folded = reconcile_reboot(&mut state, RebootPolicy::CompareToken, "A");
    assert!(!folded);
    assert_eq!(state, stored("A", 100, 50));
}

#[test]
fn missing_boot_token_disables_the_comparison() {
    let mut state = stored("A", 100, 50);
    let folded = reconcile_reboot(&mut state, RebootPolicy::CompareToken, "");
    assert!(!folded);
    assert_eq!(state, stored("A", 100, 50));
}

#[test]
fn always_merge_policy_folds_on_every_start() {
    let mut state = stored("", 100, 50);
    let folded = reconcile_reboot(&mut state, RebootPolicy::AlwaysMerge, "");
    assert!(folded);
    assert_eq!(state.accumulated_tx, 150);
    assert_eq!(state.accumulated_rx, 150);
    assert_eq!(state.current_boot_tx, 0);
    assert_eq!(state.boot_source_tx, 0);
    assert_eq!(state.boot_id, "");
    let mut same = stored("A", 1, 2);
    assert!(reconcile_reboot(&mut same, RebootPolicy::AlwaysMerge, "A"));
    assert_eq!(same.accumulated_tx, 3);
}

#[test]
fn folding_stops_at_the_greatest_count() {
    let mut state = stored("A", u64::MAX - 10, 50);
    assert!(reconcile_reboot(&mut state, RebootPolicy::CompareToken, "B"));
    assert_eq!(state.accumulated_tx, u64::MAX);
    assert_eq!(state.accumulated_rx, u64::MAX);
}

#[test]
fn totals_in_tx_only_mode_hide_the_received_traffic() {
    let state = RuntimeData {
        boot_id: String::new(),
        boot_source_tx: 0,
        boot_source_rx: 0,
        current_boot_tx: 5,
        current_boot_rx: 7,
        accumulated_tx: 10,
        accumulated_rx: 20,
        last_reset_month: 1,
    };
    let mut config = settings();
    config.traffic_mode = TrafficMode::TxOnly;
    assert_eq!(reported(&state, &config), (15, 0));
    config.traffic_mode = TrafficMode::RxOnly;
    assert_eq!(reported(&state, &config), (0, 27));
    config.traffic_mode = TrafficMode::Both;
    assert_eq!(reported(&state, &config), (15, 27));
}

#[test]
fn totals_include_the_calibration() {
    let state = stored("A", 100, 50);
    let mut config = settings();
    config.calibration_tx = 500;
    config.calibration_rx = 7;
    assert_eq!(reported(&state, &config), (650, 157));
    config.calibration_tx = u64::MAX;
    assert_eq!(reported(&state, &config), (u64::MAX, 157));
}

#[test]
fn billing_reset_rebases_the_counters_and_clears_the_calibration() {
    let mut state = stored("A", 100, 50);
    let mut config = settings();
    config.calibration_tx = 500;
    config.calibration_rx = 600;
    billing_reset(&mut state, &mut config, (1234, 5678), 4);
    assert_eq!(
        state,
        RuntimeData {
            boot_id: "A".to_string(),
            boot_source_tx: 1234,
            boot_source_rx: 5678,
            current_boot_tx: 0,
            current_boot_rx: 0,
            accumulated_tx: 0,
            accumulated_rx: 0,
            last_reset_month: 4,
        }
    );
    assert_eq!(config, settings());
}

#[test]
fn diff_lists_the_changed_settings_in_order() {
    let old = settings();
    assert_eq!(diff_config(&old, &old), vec![]);
    let new = EngineConfig {
        reset_day: 6,
        calibration_tx: 1,
        calibration_rx: 2,
        network_interval: 30,
        traffic_mode: TrafficMode::RxOnly,
        disable_network_statistics: true,
    };
    assert_eq!(
        diff_config(&old, &new),
        vec![
            ConfigChange::ResetDay { from: 5, to: 6 },
            ConfigChange::CalibrationTx { from: 0, to: 1 },
            ConfigChange::CalibrationRx { from: 0, to: 2 },
            ConfigChange::NetworkInterval { from: 10, to: 30 },
            ConfigChange::TrafficMode { from: TrafficMode::Both, to: TrafficMode::RxOnly },
        ]
    );
    let mut one = settings();
    one.network_interval = 11;
    assert_eq!(
        diff_config(&old, &one),
        vec![ConfigChange::NetworkInterval { from: 10, to: 11 }]
    );
}

#[test]
fn engine_is_disabled_where_the_settings_say_so() {
    let mut config = settings();
    config.disable_network_statistics = true;
    let mut engine = Engine::new(config, 10);
    assert_eq!(engine.phase(), Phase::Disabled);
    let report = engine.start(
        LoadOutcome::Absent,
        RebootPolicy::CompareToken,
        "A",
        on(2024, 3, 10),
    );
    assert_eq!(report, StartReport { recreate: false, folded: false, persist: false });
    assert_eq!(engine.phase(), Phase::Disabled);
    let tick = engine.tick(None, (1, 2), on(2024, 3, 10));
    assert_eq!(
        tick,
        TickReport {
            published: None,
            reset: false,
            persist: false,
            save_config: false,
            changes: vec![],
            sleep_seconds: 0,
        }
    );
    assert_eq!(engine.phase(), Phase::Disabled);
}

#[test]
fn engine_does_not_tick_before_it_has_started() {
    let mut engine = Engine::new(settings(), 10);
    assert_eq!(engine.phase(), Phase::Starting);
    let tick = engine.tick(None, (1, 2), on(2024, 3, 10));
    assert_eq!(tick.published, None);
    assert!(!tick.persist);
    assert_eq!(engine.phase(), Phase::Starting);
    assert_eq!(engine.state(), &RuntimeData::default());
}

#[test]
fn engine_that_was_given_up_counts_nothing() {
    let mut engine = running(stored("A", 100, 50), settings(), 10);
    engine.disable();
    assert_eq!(engine.phase(), Phase::Disabled);
    let tick = engine.tick(None, (1000, 2000), on(2024, 3, 10));
    assert_eq!(tick.published, None);
    assert_eq!(engine.state(), &stored("A", 100, 50));
}

#[test]
fn start_on_a_first_run_begins_a_fresh_state() {
    let mut engine = Engine::new(settings(), 10);
    let report = engine.start(
        LoadOutcome::Absent,
        RebootPolicy::CompareToken,
        "boot-1",
        on(2024, 8, 20),
    );
    assert_eq!(report, StartReport { recreate: false, folded: false, persist: true });
    assert_eq!(engine.phase(), Phase::Running);
    assert_eq!(engine.state(), &RuntimeData::fresh("boot-1", 8));
}

#[test]
fn start_after_a_reboot_folds_and_persists() {
    let mut engine = Engine::new(settings(), 10);
    let report = engine.start(
        LoadOutcome::Loaded(stored("A", 100, 50)),
        RebootPolicy::CompareToken,
        "B",
        on(2024, 3, 10),
    );
    assert_eq!(report, StartReport { recreate: false, folded: true, persist: true });
    assert_eq!(engine.state().accumulated_tx, 150);
    assert_eq!(engine.state().current_boot_tx, 0);
    assert_eq!(engine.state().boot_source_tx, 0);
    assert_eq!(engine.state().boot_id, "B");
    assert_eq!(engine.state().last_reset_month, 3);
}

#[test]
fn start_after_a_restart_keeps_the_baseline() {
    let mut engine = Engine::new(settings(), 10);
    let report = engine.start(
        LoadOutcome::Loaded(stored("A", 100, 50)),
        RebootPolicy::CompareToken,
        "A",
        on(2024, 3, 10),
    );
    assert_eq!(report, StartReport { recreate: false, folded: false, persist: false });
    assert_eq!(engine.state(), &stored("A", 100, 50));
}

#[test]
fn start_twice_changes_nothing_the_second_time() {
    let mut engine = running(stored("A", 100, 50), settings(), 10);
    let report = engine.start(
        LoadOutcome::Absent,
        RebootPolicy::AlwaysMerge,
        "B",
        on(2024, 9, 1),
    );
    assert_eq!(report, StartReport { recreate: false, folded: false, persist: false });
    assert_eq!(engine.state(), &stored("A", 100, 50));
}

#[test]
fn corrupt_file_is_replaced_by_a_fresh_state_that_loads_again() {
    let text = "boot_source_tx=1\nboot_source_rx=2\ncurrent_boot_tx=3\ncurrent_boot_rx=4\naccumulated_tx=5\naccumulated_rx=6\nlast_reset_month=7\n";
    let outcome = ConfigReader::load_runtime_data(Some(text));
    assert_eq!(
        outcome,
        LoadOutcome::Corrupt("Missing required parameter: boot_id".to_string())
    );
    let mut engine = Engine::new(settings(), 10);
    let report = engine.start(outcome, RebootPolicy::CompareToken, "boot-9", on(2024, 5, 2));
    assert_eq!(report, StartReport { recreate: true, folded: false, persist: true });
    let fresh = RuntimeData {
        boot_id: "boot-9".to_string(),
        boot_source_tx: 0,
        boot_source_rx: 0,
        current_boot_tx: 0,
        current_boot_rx: 0,
        accumulated_tx: 0,
        accumulated_rx: 0,
        last_reset_month: 5,
    };
    assert_eq!(engine.state(), &fresh);
    let rewritten = engine.state().encode();
    assert_eq!(
        ConfigReader::load_runtime_data(Some(&rewritten)),
        LoadOutcome::Loaded(fresh)
    );
}

#[test]
fn tick_measures_publishes_and_sleeps() {
    let mut engine = running(stored("A", 100, 50), settings(), 10);
    let report = engine.tick(None, (1007, 2008), on(2024, 3, 11));
    assert_eq!(
        report,
        TickReport {
            published: Some((1100, 2100)),
            reset: false,
            persist: false,
            save_config: false,
            changes: vec![],
            sleep_seconds: 10,
        }
    );
    assert_eq!(engine.state().current_boot_tx, 1000);
    assert_eq!(engine.state().current_boot_rx, 2000);
    assert_eq!(engine.state().boot_source_tx, 7);
    assert_eq!(engine.state().accumulated_tx, 100);
}

#[test]
fn tick_reports_zero_for_the_boot_where_the_counters_were_reset() {
    let mut engine = running(stored("A", 100, 50), settings(), 10);
    let report = engine.tick(None, (3, 8), on(2024, 3, 11));
    assert_eq!(report.published, Some((100, 100)));
    assert_eq!(engine.state().current_boot_tx, 0);
    assert_eq!(engine.state().current_boot_rx, 0);
}

#[test]
fn tick_persists_every_kth_time() {
    let mut engine = running(stored("A", 0, 0), settings(), 3);
    let mut persisted = Vec::new();
    for _ in 0..7 {
        persisted.push(engine.tick(None, (7, 8), on(2024, 3, 11)).persist);
    }
    assert_eq!(persisted, vec![false, false, true, false, false, true, false]);
}

#[test]
fn tick_persists_every_time_where_k_is_zero_or_one() {
    let mut zero = running(stored("A", 0, 0), settings(), 0);
    let mut one = running(stored("A", 0, 0), settings(), 1);
    for _ in 0..3 {
        assert!(zero.tick(None, (7, 8), on(2024, 3, 11)).persist);
        assert!(one.tick(None, (7, 8), on(2024, 3, 11)).persist);
    }
}

#[test]
fn tick_takes_reloaded_settings_and_lists_the_changes() {
    let mut engine = running(stored("A", 100, 50), settings(), 10);
    let mut reloaded = settings();
    reloaded.network_interval = 60;
    reloaded.calibration_tx = 500;
    reloaded.traffic_mode = TrafficMode::TxOnly;
    let report = engine.tick(Some(reloaded), (7, 8), on(2024, 3, 11));
    assert_eq!(
        report.changes,
        vec![
            ConfigChange::CalibrationTx { from: 0, to: 500 },
            ConfigChange::NetworkInterval { from: 10, to: 60 },
            ConfigChange::TrafficMode { from: TrafficMode::Both, to: TrafficMode::TxOnly },
        ]
    );
    assert_eq!(report.sleep_seconds, 60);
    assert_eq!(report.published, Some((600, 0)));
    assert_eq!(engine.config(), reloaded);
    let again = engine.tick(Some(reloaded), (7, 8), on(2024, 3, 11));
    assert_eq!(again.changes, vec![]);
    let failed = engine.tick(None, (7, 8), on(2024, 3, 11));
    assert_eq!(failed.changes, vec![]);
    assert_eq!(engine.config(), reloaded);
}

#[test]
fn billing_reset_in_a_tick_drops_the_calibration_once_and_for_all() {
    let mut config = settings();
    config.calibration_tx = 500;
    let mut engine = running(stored("A", 100, 50), config, 10);
    let before = engine.tick(None, (1007, 2008), on(2024, 4, 4));
    assert!(!before.reset);
    assert_eq!(before.published, Some((1600, 2100)));
    let at_reset = engine.tick(None, (1010, 2010), on(2024, 4, 5));
    assert_eq!(
        at_reset,
        TickReport {
            published: Some((0, 0)),
            reset: true,
            persist: true,
            save_config: true,
            changes: vec![],
            sleep_seconds: 10,
        }
    );
    assert_eq!(engine.config().calibration_tx, 0);
    assert_eq!(engine.config().calibration_rx, 0);
    assert_eq!(
        engine.state(),
        &RuntimeData {
            boot_id: "A".to_string(),
            boot_source_tx: 1010,
            boot_source_rx: 2010,
            current_boot_tx: 0,
            current_boot_rx: 0,
            accumulated_tx: 0,
            accumulated_rx: 0,
            last_reset_month: 4,
        }
    );
    let after = engine.tick(Some(engine.config()), (1030, 2050), on(2024, 4, 5));
    assert!(!after.reset);
    assert!(!after.save_config);
    assert_eq!(after.published, Some((20, 40)));
}

#[test]
fn billing_reset_happens_once_in_a_month() {
    let mut engine = running(stored("A", 100, 50), settings(), 100);
    assert!(engine.tick(None, (10, 10), on(2024, 4, 5)).reset);
    for day in 1..=30u8 {
        let mut reloaded = settings();
        reloaded.reset_day = day;
        assert!(!engine.tick(Some(reloaded), (20, 20), on(2024, 4, day)).reset);
    }
    assert!(!engine.tick(Some(settings()), (20, 20), on(2024, 5, 4)).reset);
    assert!(engine.tick(Some(settings()), (20, 20), on(2024, 5, 5)).reset);
}

#[test]
fn billing_reset_follows_a_long_absence_on_any_day() {
    let mut engine = running(stored("A", 100, 50), settings(), 100);
    let report = engine.tick(None, (10, 10), on(2024, 6, 1));
    assert!(report.reset);
    assert_eq!(engine.state().last_reset_month, 6);
}

#[test]
fn billing_reset_uses_the_reloaded_reset_day() {
    let mut engine = running(stored("A", 100, 50), settings(), 100);
    let mut reloaded = settings();
    reloaded.reset_day = 2;
    let report = engine.tick(Some(reloaded), (10, 10), on(2024, 4, 2));
    assert!(report.reset);
    assert_eq!(report.changes, vec![ConfigChange::ResetDay { from: 5, to: 2 }]);
}

#[test]
fn engine_settings_are_drawn_from_the_agent_settings() {
    let mut user = UserConfig::default();
    user.reset_day = 9;
    user.calibration_tx = 500;
    user.calibration_rx = 600;
    user.network_interval = 30;
    user.traffic_mode = TrafficMode::RxOnly;
    user.disable_network_statistics = true;
    assert_eq!(
        EngineConfig::of(&user),
        EngineConfig {
            reset_day: 9,
            calibration_tx: 500,
            calibration_rx: 600,
            network_interval: 30,
            traffic_mode: TrafficMode::RxOnly,
            disable_network_statistics: true,
        }
    );
    clear_calibration(&mut user);
    assert_eq!(user.calibration_tx, 0);
    assert_eq!(user.calibration_rx, 0);
    assert_eq!(user.reset_day, 9);
    assert_eq!(user.network_interval, 30);
}
