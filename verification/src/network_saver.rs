//! The accounting engine: what is reported as sent and received, kept
//! believable across restarts of the process, reboots of the host and
//! billing periods.
//!
//! The engine is a state machine. It is told what was read (the file of
//! runtime data, the boot identifier, the interface counters, the date, the
//! settings) and answers with its new state and with what is to be done:
//! publish a total, persist the state, store the settings, sleep.

use vstd::prelude::*;
use vstd::string::StringExecFns;
use crate::calendar::{reset_due, should_reset, CalendarDate};
use crate::config::{
    lemma_load_written,
    loaded,
    LoadModel,
    LoadOutcome,
    RuntimeData,
    RuntimeModel,
    TrafficMode,
    UserConfig,
    UserConfigModel,
};
use crate::keyvalue::is_value;
use crate::text::{equals, to_chars};
use crate::user_config::lemma_settings_decode_encode;

verus! {

/// The settings that the engine works with.
#[derive(Debug, Clone, Copy, PartialEq, Eq, Structural)]
pub struct EngineConfig {
    /// Day of the month on which a billing period begins.
    pub reset_day: u8,
    /// Corrections that are added to the reported totals until the next
    /// billing reset.
    pub calibration_tx: u64,
    pub calibration_rx: u64,
    /// Seconds between two readings.
    pub network_interval: u32,
    /// The directions that are reported.
    pub traffic_mode: TrafficMode,
    /// When set, nothing is counted at all.
    pub disable_network_statistics: bool,
}

/// How a reboot of the host is recognised when the engine starts.
#[derive(Debug, Clone, Copy, PartialEq, Eq, Structural)]
pub enum RebootPolicy {
    /// The host has rebooted when it supplies a boot identifier that
    /// differs from the stored one. Without an identifier nothing is
    /// assumed.
    CompareToken,
    /// For hosts that have no stable boot identifier: every start counts
    /// as a reboot.
    AlwaysMerge,
}

/// Where the engine stands.
#[derive(Debug, Clone, Copy, PartialEq, Eq, Structural)]
pub enum Phase {
    /// Nothing is counted, now or later.
    Disabled,
    /// The stored state has not been taken in yet.
    Starting,
    /// Counting.
    Running,
}

/// A setting that a reload has changed.
#[allow(inconsistent_fields)]
#[derive(Debug, Clone, Copy, PartialEq, Eq, Structural)]
pub enum ConfigChange {
    ResetDay { from: u8, to: u8 },
    CalibrationTx { from: u64, to: u64 },
    CalibrationRx { from: u64, to: u64 },
    NetworkInterval { from: u32, to: u32 },
    TrafficMode { from: TrafficMode, to: TrafficMode },
}

/// What is to be done after the engine has started.
#[derive(Debug, Clone, Copy, PartialEq, Eq, Structural)]
pub struct StartReport {
    /// The stored state was unreadable: after a pause, the file is to be
    /// deleted and made anew.
    pub recreate: bool,
    /// The traffic of an earlier boot was folded into the accumulated totals.
    pub folded: bool,
    /// The state is to be written to the file at once.
    pub persist: bool,
}

/// What is to be done after a tick.
#[derive(Debug, Clone, PartialEq, Eq)]
pub struct TickReport {
    /// The totals to publish, sent first and received second; nothing when
    /// the engine is not running.
    pub published: Option<(u64, u64)>,
    /// A billing reset took place in this tick.
    pub reset: bool,
    /// The state is to be written to the file.
    pub persist: bool,
    /// The settings, their calibration cleared, are to be stored.
    pub save_config: bool,
    /// What the reload changed, setting by setting.
    pub changes: Vec<ConfigChange>,
    /// Seconds to wait before the next tick.
    pub sleep_seconds: u32,
}

/// What a `TickReport` holds, as plain values.
pub struct TickModel {
    pub published: Option<(u64, u64)>,
    pub reset: bool,
    pub persist: bool,
    pub save_config: bool,
    pub changes: Seq<ConfigChange>,
    pub sleep_seconds: u32,
}

impl View for TickReport {
    type V = TickModel;

    open spec fn view(&self) -> TickModel {
        TickModel {
            published: self.published,
            reset: self.reset,
            persist: self.persist,
            save_config: self.save_config,
            changes: self.changes@,
            sleep_seconds: self.sleep_seconds,
        }
    }
}

/// The engine: the counters, the settings in force, and how many ticks
/// have gone by since the state was last written in the ordinary course.
pub struct Engine {
    phase: Phase,
    state: RuntimeData,
    config: EngineConfig,
    ticks: u32,
    flush_every: u32,
}

/// What an `Engine` holds, as plain values.
pub struct EngineModel {
    pub phase: Phase,
    pub state: RuntimeModel,
    pub config: EngineConfig,
    pub ticks: u32,
    pub flush_every: u32,
}

impl View for Engine {
    type V = EngineModel;

    closed spec fn view(&self) -> EngineModel {
        EngineModel {
            phase: self.phase,
            state: self.state@,
            config: self.config,
            ticks: self.ticks,
            flush_every: self.flush_every,
        }
    }
}

/// The sum of two counts, held at the greatest count there is.
pub open spec fn saturating_sum(a: u64, b: u64) -> u64 {
    if a + b > u64::MAX {
        u64::MAX
    } else {
        (a + b) as u64
    }
}

/// What has been counted since the counter stood at `baseline`; nothing
/// when the counter has fallen below it.
pub open spec fn counted_since(counter: u64, baseline: u64) -> u64 {
    if counter >= baseline {
        (counter - baseline) as u64
    } else {
        0
    }
}

/// Whether the host has rebooted since the state was stored.
pub open spec fn reboot_detected(policy: RebootPolicy, stored: Seq<char>, token: Seq<char>) -> bool {
    match policy {
        RebootPolicy::AlwaysMerge => true,
        RebootPolicy::CompareToken => token.len() > 0 && stored != token,
    }
}

/// The state after a reboot: the traffic of the earlier boot is added to
/// the accumulated totals, and the new boot begins at nothing.
pub open spec fn folded(state: RuntimeModel, token: Seq<char>) -> RuntimeModel {
    RuntimeModel {
        boot_id: token,
        boot_source_tx: 0,
        boot_source_rx: 0,
        current_boot_tx: 0,
        current_boot_rx: 0,
        accumulated_tx: saturating_sum(state.accumulated_tx, state.current_boot_tx),
        accumulated_rx: saturating_sum(state.accumulated_rx, state.current_boot_rx),
        last_reset_month: state.last_reset_month,
    }
}

/// The stored state as the engine takes it up: folded after a reboot,
/// unchanged otherwise.
pub open spec fn reconciled(state: RuntimeModel, policy: RebootPolicy, token: Seq<char>) -> RuntimeModel {
    if reboot_detected(policy, state.boot_id, token) {
        folded(state, token)
    } else {
        state
    }
}

/// The state at the start of a billing period: nothing counted, and the
/// interface counters as they stand taken as the baseline.
pub open spec fn rebased(state: RuntimeModel, counters: (u64, u64), month: u8) -> RuntimeModel {
    RuntimeModel {
        boot_id: state.boot_id,
        boot_source_tx: counters.0,
        boot_source_rx: counters.1,
        current_boot_tx: 0,
        current_boot_rx: 0,
        accumulated_tx: 0,
        accumulated_rx: 0,
        last_reset_month: month,
    }
}

/// The state with the traffic of the current boot measured against the
/// baseline.
pub open spec fn measured(state: RuntimeModel, counters: (u64, u64)) -> RuntimeModel {
    RuntimeModel {
        current_boot_tx: counted_since(counters.0, state.boot_source_tx),
        current_boot_rx: counted_since(counters.1, state.boot_source_rx),
        ..state
    }
}

/// The settings with the calibration cleared.
pub open spec fn uncalibrated(config: EngineConfig) -> EngineConfig {
    EngineConfig { calibration_tx: 0, calibration_rx: 0, ..config }
}

/// The totals that are published: accumulated traffic, traffic of the
/// current boot and calibration, for the directions that the traffic mode
/// reports; the other direction is given as nothing.
pub open spec fn reported_total(state: RuntimeModel, config: EngineConfig) -> (u64, u64) {
    let tx = saturating_sum(
        saturating_sum(state.accumulated_tx, state.current_boot_tx),
        config.calibration_tx,
    );
    let rx = saturating_sum(
        saturating_sum(state.accumulated_rx, state.current_boot_rx),
        config.calibration_rx,
    );
    match config.traffic_mode {
        TrafficMode::Both => (tx, rx),
        TrafficMode::TxOnly => (tx, 0),
        TrafficMode::RxOnly => (0, rx),
    }
}

/// The settings that differ between `old` and `new`, in a fixed order.
pub open spec fn changes_between(old: EngineConfig, new: EngineConfig) -> Seq<ConfigChange> {
    (if old.reset_day != new.reset_day {
        seq![ConfigChange::ResetDay { from: old.reset_day, to: new.reset_day }]
    } else {
        seq![]
    }) + (if old.calibration_tx != new.calibration_tx {
        seq![ConfigChange::CalibrationTx { from: old.calibration_tx, to: new.calibration_tx }]
    } else {
        seq![]
    }) + (if old.calibration_rx != new.calibration_rx {
        seq![ConfigChange::CalibrationRx { from: old.calibration_rx, to: new.calibration_rx }]
    } else {
        seq![]
    }) + (if old.network_interval != new.network_interval {
        seq![
            ConfigChange::NetworkInterval { from: old.network_interval, to: new.network_interval },
        ]
    } else {
        seq![]
    }) + (if old.traffic_mode != new.traffic_mode {
        seq![ConfigChange::TrafficMode { from: old.traffic_mode, to: new.traffic_mode }]
    } else {
        seq![]
    })
}

/// The settings in force after a reload: those that were loaded, or the
/// ones in force before where loading failed.
pub open spec fn reloaded_config(cached: EngineConfig, loaded: Option<EngineConfig>) -> EngineConfig {
    match loaded {
        Some(config) => config,
        None => cached,
    }
}

impl EngineModel {
    /// An engine that has not started yet, or one that never will.
    pub open spec fn created(config: EngineConfig, flush_every: u32) -> EngineModel {
        EngineModel {
            phase: if config.disable_network_statistics {
                Phase::Disabled
            } else {
                Phase::Starting
            },
            state: RuntimeModel::initial(Seq::empty(), 1),
            config,
            ticks: 0,
            flush_every,
        }
    }

    /// The state that the engine begins with: the stored one, reconciled
    /// with the boot identifier, or a new one where nothing usable was
    /// stored.
    pub open spec fn starting_state(
        outcome: LoadModel,
        policy: RebootPolicy,
        token: Seq<char>,
        month: u8,
    ) -> RuntimeModel {
        match outcome {
            LoadModel::Loaded(state) => reconciled(state, policy, token),
            _ => RuntimeModel::initial(token, month),
        }
    }

    /// What starting asks for.
    pub open spec fn start_report(
        outcome: LoadModel,
        policy: RebootPolicy,
        token: Seq<char>,
    ) -> StartReport {
        match outcome {
            LoadModel::Loaded(state) => {
                let reboot = reboot_detected(policy, state.boot_id, token);
                StartReport { recreate: false, folded: reboot, persist: reboot }
            },
            LoadModel::Absent => StartReport { recreate: false, folded: false, persist: true },
            LoadModel::Corrupt(_) => StartReport { recreate: true, folded: false, persist: true },
        }
    }

    /// The engine after it has taken in what was stored. Only an engine
    /// that is starting does so; any other stays as it is.
    pub open spec fn started(
        self,
        outcome: LoadModel,
        policy: RebootPolicy,
        token: Seq<char>,
        today: CalendarDate,
    ) -> (EngineModel, StartReport) {
        if self.phase == Phase::Starting {
            (
                EngineModel {
                    phase: Phase::Running,
                    state: Self::starting_state(outcome, policy, token, today.month),
                    ..self
                },
                Self::start_report(outcome, policy, token),
            )
        } else {
            (self, StartReport { recreate: false, folded: false, persist: false })
        }
    }

    /// Whether a billing reset is due in a tick on `today`, under the
    /// settings that the tick's reload leaves in force.
    pub open spec fn reset_in_tick(self, reloaded: Option<EngineConfig>, today: CalendarDate) -> bool {
        self.phase == Phase::Running && reset_due(
            self.state.last_reset_month,
            reloaded_config(self.config, reloaded).reset_day,
            today,
        )
    }

    /// How many ticks have gone by since the last flush, this one included.
    pub open spec fn ticks_now(self) -> u32 {
        if self.ticks < u32::MAX {
            (self.ticks + 1) as u32
        } else {
            u32::MAX
        }
    }

    /// One tick: reload, billing reset where due, measurement, and the
    /// totals. An engine that is not running stays as it is and asks for
    /// nothing.
    pub open spec fn ticked(
        self,
        reloaded: Option<EngineConfig>,
        counters: (u64, u64),
        today: CalendarDate,
    ) -> (EngineModel, TickModel) {
        if self.phase == Phase::Running {
            let loaded = reloaded_config(self.config, reloaded);
            let reset = self.reset_in_tick(reloaded, today);
            let config = if reset {
                uncalibrated(loaded)
            } else {
                loaded
            };
            let state = measured(
                if reset {
                    rebased(self.state, counters, today.month)
                } else {
                    self.state
                },
                counters,
            );
            let flush = self.ticks_now() >= self.flush_every;
            (
                EngineModel {
                    phase: Phase::Running,
                    state,
                    config,
                    ticks: if flush {
                        0
                    } else {
                        self.ticks_now()
                    },
                    flush_every: self.flush_every,
                },
                TickModel {
                    published: Some(reported_total(state, config)),
                    reset,
                    persist: reset || flush,
                    save_config: reset,
                    changes: changes_between(self.config, loaded),
                    sleep_seconds: config.network_interval,
                },
            )
        } else {
            (
                self,
                TickModel {
                    published: None,
                    reset: false,
                    persist: false,
                    save_config: false,
                    changes: Seq::empty(),
                    sleep_seconds: 0,
                },
            )
        }
    }
}

/// A billing reset leaves nothing to report: the totals published in the
/// tick of the reset are zero in both directions, whatever the calibration
/// was, and the settings that come out of it hold no calibration.
pub proof fn lemma_reset_clears_calibration(
    engine: EngineModel,
    reloaded: Option<EngineConfig>,
    counters: (u64, u64),
    today: CalendarDate,
)
    requires
        engine.ticked(reloaded, counters, today).1.reset,
    ensures
        engine.ticked(reloaded, counters, today).0.config.calibration_tx == 0,
        engine.ticked(reloaded, counters, today).0.config.calibration_rx == 0,
        engine.ticked(reloaded, counters, today).1.save_config,
        engine.ticked(reloaded, counters, today).1.persist,
        engine.ticked(reloaded, counters, today).1.published == Some((0u64, 0u64)),
        engine.ticked(reloaded, counters, today).0.state.last_reset_month == today.month,
{
}

/// Once a tick has reset the counters, no later tick in the same calendar
/// month resets them again, whatever the day, the counters and the settings
/// that are loaded.
pub proof fn lemma_one_reset_per_month(
    engine: EngineModel,
    first_reload: Option<EngineConfig>,
    first_counters: (u64, u64),
    first_day: CalendarDate,
    second_reload: Option<EngineConfig>,
    second_counters: (u64, u64),
    second_day: CalendarDate,
)
    requires
        engine.ticked(first_reload, first_counters, first_day).1.reset,
        second_day.month == first_day.month,
    ensures
        !engine.ticked(first_reload, first_counters, first_day).0.ticked(
            second_reload,
            second_counters,
            second_day,
        ).1.reset,
{
}

/// A tick never reports less for the current boot than nothing: whatever
/// the counters read, the traffic of the current boot is what lies above
/// the baseline, and zero where the counters have fallen below it.
pub proof fn lemma_tick_measures_from_baseline(
    engine: EngineModel,
    reloaded: Option<EngineConfig>,
    counters: (u64, u64),
    today: CalendarDate,
)
    requires
        engine.phase == Phase::Running,
    ensures
        ({
            let after = engine.ticked(reloaded, counters, today).0.state;
            &&& after.current_boot_tx == counted_since(counters.0, after.boot_source_tx)
            &&& after.current_boot_rx == counted_since(counters.1, after.boot_source_rx)
            &&& counters.0 < after.boot_source_tx ==> after.current_boot_tx == 0
            &&& counters.1 < after.boot_source_rx ==> after.current_boot_rx == 0
        }),
{
}

/// The cleared calibration reaches the settings file: settings whose
/// calibration was taken out read back from their file without calibration,
/// provided they are settings that the file gives back as they are.
pub proof fn lemma_cleared_calibration_is_stored(settings: UserConfigModel, shell: Seq<char>)
    requires
        settings.settled(),
    ensures
        ({
            let cleared = UserConfigModel { calibration_tx: 0, calibration_rx: 0, ..settings };
            &&& UserConfigModel::decoded(cleared.encoded(), shell) == Ok::<
                UserConfigModel,
                Seq<char>,
            >(cleared)
            &&& EngineConfig::drawn_from(cleared) == uncalibrated(EngineConfig::drawn_from(settings))
        }),
{
    let cleared = UserConfigModel { calibration_tx: 0, calibration_rx: 0, ..settings };
    lemma_settings_decode_encode(cleared, shell);
}

/// A reload never touches the counters: in a tick without billing reset
/// the state that comes out is the state that went in, measured against the
/// counters, whatever settings were loaded.
pub proof fn lemma_reload_keeps_counters(
    engine: EngineModel,
    reloaded: Option<EngineConfig>,
    counters: (u64, u64),
    today: CalendarDate,
)
    requires
        engine.phase == Phase::Running,
        !engine.ticked(reloaded, counters, today).1.reset,
    ensures
        engine.ticked(reloaded, counters, today).0.state == measured(engine.state, counters),
        engine.ticked(reloaded, counters, today).0.state.accumulated_tx
            == engine.state.accumulated_tx,
        engine.ticked(reloaded, counters, today).0.state.accumulated_rx
            == engine.state.accumulated_rx,
        engine.ticked(reloaded, counters, today).0.state.boot_source_tx
            == engine.state.boot_source_tx,
        engine.ticked(reloaded, counters, today).0.state.boot_source_rx
            == engine.state.boot_source_rx,
        engine.ticked(reloaded, counters, today).0.state.last_reset_month
            == engine.state.last_reset_month,
{
}

/// A restart of the process under the same boot leaves the stored state as
/// it is, and so does a start without boot identifier where identifiers are
/// compared.
pub proof fn lemma_restart_keeps_state(state: RuntimeModel, token: Seq<char>)
    requires
        token.len() == 0 || token == state.boot_id,
    ensures
        reconciled(state, RebootPolicy::CompareToken, token) == state,
{
}

/// Where nothing usable was stored, the engine begins with a state that
/// counts nothing, and the file that is written for that state loads as
/// that state again, provided the boot identifier is trimmed and on one
/// line.
pub proof fn lemma_recovered_state_loads(
    engine: EngineModel,
    outcome: LoadModel,
    policy: RebootPolicy,
    token: Seq<char>,
    today: CalendarDate,
)
    requires
        engine.phase == Phase::Starting,
        !(outcome is Loaded),
        is_value(token),
    ensures
        engine.started(outcome, policy, token, today).0.state == RuntimeModel::initial(
            token,
            today.month,
        ),
        engine.started(outcome, policy, token, today).1.persist,
        engine.started(outcome, policy, token, today).1.recreate == (outcome is Corrupt),
        loaded(engine.started(outcome, policy, token, today).0.state.encoded())
            == LoadModel::Loaded(engine.started(outcome, policy, token, today).0.state),
{
    lemma_load_written(RuntimeModel::initial(token, today.month));
}

/// What has been counted since the counter stood at `baseline`. A counter
/// that reads less than the baseline gives zero.
pub fn saturating_delta(counter: u64, baseline: u64) -> (r: u64)
    ensures
        r == counted_since(counter, baseline),
        counter < baseline ==> r == 0,
{
    counter.saturating_sub(baseline)
}

/// Takes up a stored state under the boot identifier `token`: after a
/// reboot the traffic of the earlier boot is folded into the accumulated
/// totals; otherwise the state is left as it is. Returns whether it folded.
pub fn reconcile_reboot(state: &mut RuntimeData, policy: RebootPolicy, token: &str) -> (reboot: bool)
    ensures
        reboot == reboot_detected(policy, old(state)@.boot_id, token@),
        final(state)@ == reconciled(old(state)@, policy, token@),
{
    let reboot = match policy {
        RebootPolicy::AlwaysMerge => true,
        RebootPolicy::CompareToken => {
            let stored = to_chars(state.boot_id.as_str());
            !token.is_empty() && !equals(stored.as_slice(), token)
        },
    };
    if reboot {
        state.accumulated_tx = state.accumulated_tx.saturating_add(state.current_boot_tx);
        state.accumulated_rx = state.accumulated_rx.saturating_add(state.current_boot_rx);
        state.boot_source_tx = 0;
        state.boot_source_rx = 0;
        state.current_boot_tx = 0;
        state.current_boot_rx = 0;
        state.boot_id = String::from_str(token);
    }
    reboot
}

/// Begins a billing period: the interface counters as they stand become
/// the baseline, nothing is counted yet, `month` is noted as the month of
/// the reset, and the calibration is cleared.
pub fn billing_reset(
    state: &mut RuntimeData,
    config: &mut EngineConfig,
    counters: (u64, u64),
    month: u8,
)
    ensures
        final(state)@ == rebased(old(state)@, counters, month),
        *final(config) == uncalibrated(*old(config)),
{
    state.boot_source_tx = counters.0;
    state.boot_source_rx = counters.1;
    state.current_boot_tx = 0;
    state.current_boot_rx = 0;
    state.accumulated_tx = 0;
    state.accumulated_rx = 0;
    state.last_reset_month = month;
    config.calibration_tx = 0;
    config.calibration_rx = 0;
}

/// The totals to publish for a state under given settings.
pub fn reported(state: &RuntimeData, config: &EngineConfig) -> (r: (u64, u64))
    ensures
        r == reported_total(state@, *config),
{
    let tx = state.accumulated_tx.saturating_add(state.current_boot_tx).saturating_add(
        config.calibration_tx,
    );
    let rx = state.accumulated_rx.saturating_add(state.current_boot_rx).saturating_add(
        config.calibration_rx,
    );
    match config.traffic_mode {
        TrafficMode::Both => (tx, rx),
        TrafficMode::TxOnly => (tx, 0),
        TrafficMode::RxOnly => (0, rx),
    }
}

/// The settings that a reload has changed, in a fixed order.
pub fn diff_config(old: &EngineConfig, new: &EngineConfig) -> (r: Vec<ConfigChange>)
    ensures
        r@ == changes_between(*old, *new),
{
    let mut r: Vec<ConfigChange> = Vec::new();
    if old.reset_day != new.reset_day {
        r.push(ConfigChange::ResetDay { from: old.reset_day, to: new.reset_day });
    }
    if old.calibration_tx != new.calibration_tx {
        r.push(ConfigChange::CalibrationTx { from: old.calibration_tx, to: new.calibration_tx });
    }
    if old.calibration_rx != new.calibration_rx {
        r.push(ConfigChange::CalibrationRx { from: old.calibration_rx, to: new.calibration_rx });
    }
    if old.network_interval != new.network_interval {
        r.push(
            ConfigChange::NetworkInterval { from: old.network_interval, to: new.network_interval },
        );
    }
    if old.traffic_mode != new.traffic_mode {
        r.push(ConfigChange::TrafficMode { from: old.traffic_mode, to: new.traffic_mode });
    }
    assert(r@ =~= changes_between(*old, *new));
    r
}

impl RebootPolicy {
    /// The policy for a host: boot identifiers are compared where the host
    /// has them, and every start counts as a reboot where it has none.
    pub fn for_host(has_boot_identifier: bool) -> (r: RebootPolicy)
        ensures
            r == if has_boot_identifier {
                RebootPolicy::CompareToken
            } else {
                RebootPolicy::AlwaysMerge
            },
    {
        if has_boot_identifier {
            RebootPolicy::CompareToken
        } else {
            RebootPolicy::AlwaysMerge
        }
    }
}

impl EngineConfig {
    /// The part of the agent's settings that the engine works with.
    pub open spec fn drawn_from(settings: UserConfigModel) -> EngineConfig {
        EngineConfig {
            reset_day: settings.reset_day,
            calibration_tx: settings.calibration_tx,
            calibration_rx: settings.calibration_rx,
            network_interval: settings.network_interval,
            traffic_mode: settings.traffic_mode,
            disable_network_statistics: settings.disable_network_statistics,
        }
    }

    /// The part of the agent's settings that the engine works with.
    pub fn of(settings: &UserConfig) -> (r: EngineConfig)
        ensures
            r == Self::drawn_from(settings@),
    {
        EngineConfig {
            reset_day: settings.reset_day,
            calibration_tx: settings.calibration_tx,
            calibration_rx: settings.calibration_rx,
            network_interval: settings.network_interval,
            traffic_mode: settings.traffic_mode,
            disable_network_statistics: settings.disable_network_statistics,
        }
    }
}

/// Takes the calibration out of the agent's settings, as a billing reset
/// asks for before the settings are stored.
pub fn clear_calibration(settings: &mut UserConfig)
    ensures
        final(settings)@ == (UserConfigModel {
            calibration_tx: 0,
            calibration_rx: 0,
            ..old(settings)@
        }),
        EngineConfig::drawn_from(final(settings)@) == uncalibrated(
            EngineConfig::drawn_from(old(settings)@),
        ),
{
    settings.calibration_tx = 0;
    settings.calibration_rx = 0;
}

impl Engine {
    /// An engine for the given settings that writes its state at least
    /// every `flush_every` ticks. It is disabled for good where the settings
    /// say so, and about to start otherwise.
    pub fn new(config: EngineConfig, flush_every: u32) -> (r: Engine)
        ensures
            r@ == EngineModel::created(config, flush_every),
    {
        Engine {
            phase: if config.disable_network_statistics {
                Phase::Disabled
            } else {
                Phase::Starting
            },
            state: RuntimeData::default(),
            config,
            ticks: 0,
            flush_every,
        }
    }

    /// Where the engine stands.
    pub fn phase(&self) -> (r: Phase)
        ensures
            r == self@.phase,
    {
        self.phase
    }

    /// The counters as they are now; this is what is written to the file.
    pub fn state(&self) -> (r: &RuntimeData)
        ensures
            r@ == self@.state,
    {
        &self.state
    }

    /// The settings in force.
    pub fn config(&self) -> (r: EngineConfig)
        ensures
            r == self@.config,
    {
        self.config
    }

    /// Gives the engine up: from now on it counts nothing.
    pub fn disable(&mut self)
        ensures
            final(self)@ == (EngineModel { phase: Phase::Disabled, ..old(self)@ }),
    {
        self.phase = Phase::Disabled;
    }

    /// Takes in what the file of runtime data held, under the boot
    /// identifier `token`, and begins to run.
    pub fn start(
        &mut self,
        outcome: LoadOutcome,
        policy: RebootPolicy,
        token: &str,
        today: CalendarDate,
    ) -> (report: StartReport)
        ensures
            final(self)@ == old(self)@.started(outcome@, policy, token@, today).0,
            report == old(self)@.started(outcome@, policy, token@, today).1,
    {
        match self.phase {
            Phase::Starting => {},
            _ => {
                return StartReport { recreate: false, folded: false, persist: false };
            },
        }
        self.phase = Phase::Running;
        match outcome {
            LoadOutcome::Loaded(mut state) => {
                let reboot = reconcile_reboot(&mut state, policy, token);
                self.state = state;
                StartReport { recreate: false, folded: reboot, persist: reboot }
            },
            LoadOutcome::Absent => {
                self.state = RuntimeData::fresh(token, today.month);
                StartReport { recreate: false, folded: false, persist: true }
            },
            LoadOutcome::Corrupt(_) => {
                self.state = RuntimeData::fresh(token, today.month);
                StartReport { recreate: true, folded: false, persist: true }
            },
        }
    }

    /// One tick of a running engine: takes the reloaded settings where
    /// there are any, resets the counters where a billing period begins,
    /// measures the traffic of the current boot, and says what to publish
    /// and what else to do.
    pub fn tick(
        &mut self,
        reloaded: Option<EngineConfig>,
        counters: (u64, u64),
        today: CalendarDate,
    ) -> (report: TickReport)
        ensures
            final(self)@ == old(self)@.ticked(reloaded, counters, today).0,
            report@ == old(self)@.ticked(reloaded, counters, today).1,
            report.reset ==> report.published == Some((0u64, 0u64)),
            report.reset ==> report.persist && report.save_config,
            report.reset ==> final(self)@.config.calibration_tx == 0,
            report.reset ==> final(self)@.config.calibration_rx == 0,
            report.reset ==> final(self)@.state.last_reset_month == today.month,
            old(self)@.phase == Phase::Running ==> final(self)@.state.current_boot_tx
                == counted_since(counters.0, final(self)@.state.boot_source_tx),
            old(self)@.phase == Phase::Running ==> final(self)@.state.current_boot_rx
                == counted_since(counters.1, final(self)@.state.boot_source_rx),
    {
        match self.phase {
            Phase::Running => {},
            _ => {
                return TickReport {
                    published: None,
                    reset: false,
                    persist: false,
                    save_config: false,
                    changes: Vec::new(),
                    sleep_seconds: 0,
                };
            },
        }
        let loaded = match reloaded {
            Some(config) => config,
            None => self.config,
        };
        let changes = diff_config(&self.config, &loaded);
        self.config = loaded;
        let reset = should_reset(self.state.last_reset_month, self.config.reset_day, today);
        if reset {
            billing_reset(&mut self.state, &mut self.config, counters, today.month);
        }
        self.state.current_boot_tx = saturating_delta(counters.0, self.state.boot_source_tx);
        self.state.current_boot_rx = saturating_delta(counters.1, self.state.boot_source_rx);
        let now: u32 = self.ticks.saturating_add(1);
        let flush = now >= self.flush_every;
        self.ticks = if flush {
            0
        } else {
            now
        };
        TickReport {
            published: Some(reported(&self.state, &self.config)),
            reset,
            persist: reset || flush,
            save_config: reset,
            changes,
            sleep_seconds: self.config.network_interval,
        }
    }
}

} // verus!
