//! Low-battery state machine with hysteresis, so the warning does not
//! flicker every time the motors sag the pack for a moment.
use vstd::prelude::*;

verus! {

/// Thresholds, pack millivolts.
#[derive(Debug, Clone, Copy, PartialEq, Eq, Structural)]
pub struct MonitorConfig {
    /// Below this → [`BatteryState::Low`] (3S: 3.50 V/cell).
    pub warn_mv: u32,
    /// Below this → [`BatteryState::Critical`], driving inhibited (3S: 3.30 V/cell).
    pub critical_mv: u32,
    /// Must recover by this much above a threshold to step back up.
    pub hysteresis_mv: u32,
    /// Consecutive samples below a threshold before acting (debounce); `0`
    /// acts as `1`.
    pub debounce_samples: u8,
}

impl MonitorConfig {
    /// The car's 3S pack, sampled at 2 Hz: 2 s of confirmation.
    pub fn car_3s() -> (c: MonitorConfig)
        ensures
            c.warn_mv == 10_500,
            c.critical_mv == 9_900,
            c.hysteresis_mv == 300,
            c.debounce_samples == 4,
    {
        MonitorConfig { warn_mv: 10_500, critical_mv: 9_900, hysteresis_mv: 300, debounce_samples: 4 }
    }

    /// Both recovery levels (threshold plus hysteresis) fit in `u32`.
    pub open spec fn recovery_fits(self) -> bool {
        &&& self.warn_mv + self.hysteresis_mv <= u32::MAX
        &&& self.critical_mv + self.hysteresis_mv <= u32::MAX
    }
}

/// Battery health verdict.
#[derive(Debug, Clone, Copy, PartialEq, Eq, Structural)]
pub enum BatteryState {
    /// Fine.
    Normal,
    /// Head home.
    Low,
    /// Stop driving now.
    Critical,
}

impl Default for BatteryState {
    fn default() -> (s: BatteryState)
        ensures
            s == BatteryState::Normal,
    {
        BatteryState::Normal
    }
}

/// The monitor's abstract state: its thresholds, its verdict and the two
/// consecutive-sample counters.
pub struct MonitorModel {
    pub cfg: MonitorConfig,
    pub state: BatteryState,
    pub below_warn: u8,
    pub below_crit: u8,
}

/// Count one more sample below a threshold (saturating), or restart at zero.
pub open spec fn count_below(count: u8, below: bool) -> u8 {
    if !below {
        0
    } else if count == u8::MAX {
        u8::MAX
    } else {
        (count + 1) as u8
    }
}

/// Consecutive readings below a threshold needed to act: the debounce
/// count, and at least one, so only a reading below a threshold ever steps
/// the verdict down.
pub open spec fn trip_count(cfg: MonitorConfig) -> int {
    if cfg.debounce_samples == 0 {
        1
    } else {
        cfg.debounce_samples as int
    }
}

/// The verdict after one reading, given the freshly updated counters.
pub open spec fn next_state(
    cfg: MonitorConfig,
    state: BatteryState,
    below_warn: u8,
    below_crit: u8,
    pack_mv: int,
) -> BatteryState {
    match state {
        BatteryState::Normal => {
            if below_crit >= trip_count(cfg) {
                BatteryState::Critical
            } else if below_warn >= trip_count(cfg) {
                BatteryState::Low
            } else {
                BatteryState::Normal
            }
        },
        BatteryState::Low => {
            if below_crit >= trip_count(cfg) {
                BatteryState::Critical
            } else if pack_mv >= cfg.warn_mv + cfg.hysteresis_mv {
                BatteryState::Normal
            } else {
                BatteryState::Low
            }
        },
        BatteryState::Critical => {
            if pack_mv >= cfg.critical_mv + cfg.hysteresis_mv {
                BatteryState::Low
            } else {
                BatteryState::Critical
            }
        },
    }
}

/// One reading applied to the monitor's model.
pub open spec fn monitor_step(m: MonitorModel, pack_mv: int) -> MonitorModel {
    let below_crit = count_below(m.below_crit, pack_mv < m.cfg.critical_mv);
    let below_warn = count_below(m.below_warn, pack_mv < m.cfg.warn_mv);
    MonitorModel {
        cfg: m.cfg,
        state: next_state(m.cfg, m.state, below_warn, below_crit, pack_mv),
        below_warn,
        below_crit,
    }
}

/// The recovery level that one reading is compared against fits in `u32`:
/// `warn_mv + hysteresis_mv` when `Low` and not stepping down to
/// `Critical`, `critical_mv + hysteresis_mv` when `Critical`; a `Normal`
/// monitor compares against neither.
pub open spec fn update_fits(m: MonitorModel, pack_mv: int) -> bool {
    match m.state {
        BatteryState::Normal => true,
        BatteryState::Low => count_below(m.below_crit, pack_mv < m.cfg.critical_mv) >= trip_count(m.cfg)
            || m.cfg.warn_mv + m.cfg.hysteresis_mv <= u32::MAX,
        BatteryState::Critical => m.cfg.critical_mv + m.cfg.hysteresis_mv <= u32::MAX,
    }
}

/// Debounced, hysteretic threshold tracker.
#[derive(Debug, Clone, Copy)]
pub struct BatteryMonitor {
    cfg: MonitorConfig,
    state: BatteryState,
    below_warn: u8,
    below_crit: u8,
}

impl View for BatteryMonitor {
    type V = MonitorModel;

    closed spec fn view(&self) -> MonitorModel {
        MonitorModel {
            cfg: self.cfg,
            state: self.state,
            below_warn: self.below_warn,
            below_crit: self.below_crit,
        }
    }
}

impl BatteryMonitor {
    /// Start in [`BatteryState::Normal`] with both counters at zero.
    pub fn new(cfg: MonitorConfig) -> (m: BatteryMonitor)
        ensures
            m@ == (MonitorModel { cfg, state: BatteryState::Normal, below_warn: 0, below_crit: 0 }),
    {
        BatteryMonitor { cfg, state: BatteryState::Normal, below_warn: 0, below_crit: 0 }
    }

    /// Current verdict.
    pub fn state(&self) -> (s: BatteryState)
        ensures
            s == self@.state,
    {
        self.state
    }

    /// Feed one pack reading, millivolts; returns the (possibly new) state.
    pub fn update(&mut self, pack_mv: u32) -> (s: BatteryState)
        requires
            update_fits(old(self)@, pack_mv as int),
        ensures
            final(self)@ == monitor_step(old(self)@, pack_mv as int),
            s == final(self)@.state,
    {
        let cfg = self.cfg;
        let need: u8 = if cfg.debounce_samples == 0 {
            1
        } else {
            cfg.debounce_samples
        };
        self.below_crit = if pack_mv < cfg.critical_mv {
            self.below_crit.saturating_add(1)
        } else {
            0
        };
        self.below_warn = if pack_mv < cfg.warn_mv {
            self.below_warn.saturating_add(1)
        } else {
            0
        };
        self.state = match self.state {
            BatteryState::Normal => {
                if self.below_crit >= need {
                    BatteryState::Critical
                } else if self.below_warn >= need {
                    BatteryState::Low
                } else {
                    BatteryState::Normal
                }
            },
            BatteryState::Low => {
                if self.below_crit >= need {
                    BatteryState::Critical
                } else if pack_mv >= cfg.warn_mv + cfg.hysteresis_mv {
                    BatteryState::Normal
                } else {
                    BatteryState::Low
                }
            },
            BatteryState::Critical => {
                if pack_mv >= cfg.critical_mv + cfg.hysteresis_mv {
                    BatteryState::Low
                } else {
                    BatteryState::Critical
                }
            },
        };
        self.state
    }
}

/// The monitor after a sequence of readings, starting from `m`.
pub open spec fn monitor_run(m: MonitorModel, readings: Seq<u32>) -> MonitorModel
    decreases readings.len(),
{
    if readings.len() == 0 {
        m
    } else {
        monitor_step(monitor_run(m, readings.drop_last()), readings.last() as int)
    }
}

/// Length of the trailing run of readings strictly below `threshold`.
pub open spec fn trailing_run_below(readings: Seq<u32>, threshold: int) -> nat
    decreases readings.len(),
{
    if readings.len() == 0 || readings.last() >= threshold {
        0
    } else {
        trailing_run_below(readings.drop_last(), threshold) + 1
    }
}

/// Hysteresis: a monitor steps out of `Critical` only to `Low`, never straight
/// to `Normal`; it leaves `Low` for `Normal` only on a reading at least
/// `hysteresis_mv` above the warning threshold, and leaves `Critical` for
/// `Low` only on a reading at least `hysteresis_mv` above the critical
/// threshold; it leaves `Normal` only once a counter reaches the debounce
/// count, and only on a reading below the warning threshold. With the
/// critical threshold at or below the warning one, those recovery readings
/// are also enough: `Low` returns to `Normal` exactly on a reading at least
/// `hysteresis_mv` above the warning threshold, and `Critical` steps to
/// `Low` exactly on one at least `hysteresis_mv` above the critical one.
pub proof fn lemma_monitor_hysteresis(m: MonitorModel, pack_mv: int)
    ensures
        m.state == BatteryState::Critical ==> monitor_step(m, pack_mv).state != BatteryState::Normal,
        m.state == BatteryState::Critical && monitor_step(m, pack_mv).state == BatteryState::Low
            ==> pack_mv >= m.cfg.critical_mv + m.cfg.hysteresis_mv,
        m.state == BatteryState::Low && monitor_step(m, pack_mv).state == BatteryState::Normal
            ==> pack_mv >= m.cfg.warn_mv + m.cfg.hysteresis_mv,
        m.state == BatteryState::Normal && monitor_step(m, pack_mv).state != BatteryState::Normal ==> {
            ||| monitor_step(m, pack_mv).below_warn >= trip_count(m.cfg)
            ||| monitor_step(m, pack_mv).below_crit >= trip_count(m.cfg)
        },
        m.cfg.critical_mv <= m.cfg.warn_mv && m.state == BatteryState::Normal && monitor_step(
            m,
            pack_mv,
        ).state != BatteryState::Normal ==> pack_mv < m.cfg.warn_mv,
        m.state == BatteryState::Critical ==> (monitor_step(m, pack_mv).state == BatteryState::Low
            <==> pack_mv >= m.cfg.critical_mv + m.cfg.hysteresis_mv),
        m.cfg.critical_mv <= m.cfg.warn_mv && m.state == BatteryState::Low ==> (monitor_step(
            m,
            pack_mv,
        ).state == BatteryState::Normal <==> pack_mv >= m.cfg.warn_mv + m.cfg.hysteresis_mv),
{
}

proof fn lemma_run_counters(m: MonitorModel, readings: Seq<u32>)
    requires
        m.below_warn == 0,
        m.below_crit == 0,
    ensures
        monitor_run(m, readings).cfg == m.cfg,
        monitor_run(m, readings).below_warn as int == if trailing_run_below(readings, m.cfg.warn_mv as int) > 255 {
            255
        } else {
            trailing_run_below(readings, m.cfg.warn_mv as int) as int
        },
        monitor_run(m, readings).below_crit as int == if trailing_run_below(readings, m.cfg.critical_mv as int) > 255 {
            255
        } else {
            trailing_run_below(readings, m.cfg.critical_mv as int) as int
        },
    decreases readings.len(),
{
    if readings.len() > 0 {
        lemma_run_counters(m, readings.drop_last());
    }
}

proof fn lemma_crit_run_within_warn_run(readings: Seq<u32>, warn: int, crit: int)
    requires
        crit <= warn,
    ensures
        trailing_run_below(readings, crit) <= trailing_run_below(readings, warn),
    decreases readings.len(),
{
    if readings.len() > 0 {
        lemma_crit_run_within_warn_run(readings.drop_last(), warn, crit);
    }
}

/// Debounce: starting from a fresh monitor, as long as no run of consecutive
/// readings below the warning threshold reaches the debounce count, the
/// verdict stays `Normal` (a sag shorter than the debounce never trips).
pub proof fn lemma_short_sags_never_trip(cfg: MonitorConfig, readings: Seq<u32>)
    requires
        cfg.critical_mv <= cfg.warn_mv,
        forall|j: int|
            0 < j <= readings.len() ==> #[trigger] trailing_run_below(readings.take(j), cfg.warn_mv as int)
                < trip_count(cfg),
    ensures
        monitor_run(
            MonitorModel { cfg, state: BatteryState::Normal, below_warn: 0, below_crit: 0 },
            readings,
        ).state == BatteryState::Normal,
    decreases readings.len(),
{
    let m0 = MonitorModel { cfg, state: BatteryState::Normal, below_warn: 0, below_crit: 0 };
    if readings.len() > 0 {
        let prev = readings.drop_last();
        assert forall|j: int| 0 < j <= prev.len() implies #[trigger] trailing_run_below(prev.take(j), cfg.warn_mv as int)
            < trip_count(cfg) by {
            assert(prev.take(j) =~= readings.take(j));
            assert(trailing_run_below(readings.take(j), cfg.warn_mv as int) < trip_count(cfg));
        }
        lemma_short_sags_never_trip(cfg, prev);
        lemma_run_counters(m0, readings);
        lemma_crit_run_within_warn_run(readings, cfg.warn_mv as int, cfg.critical_mv as int);
        assert(readings.take(readings.len() as int) =~= readings);
        assert(trailing_run_below(readings.take(readings.len() as int), cfg.warn_mv as int) < trip_count(cfg));
    }
}

/// `true` when `readings` has at least `d` entries and the last `d` of them
/// are all below `threshold`.
pub open spec fn last_all_below(readings: Seq<u32>, d: int, threshold: int) -> bool {
    &&& d <= readings.len()
    &&& forall|i: int| readings.len() - d <= i < readings.len() ==> #[trigger] readings[i] < threshold
}

proof fn lemma_trailing_run_covers(readings: Seq<u32>, d: int, threshold: int)
    requires
        0 <= d,
    ensures
        trailing_run_below(readings, threshold) >= d <==> last_all_below(readings, d, threshold),
    decreases readings.len(),
{
    if d > 0 && readings.len() > 0 {
        let prev = readings.drop_last();
        let n = readings.len() as int;
        lemma_trailing_run_covers(prev, d - 1, threshold);
        if last_all_below(readings, d, threshold) {
            assert(readings[n - 1] < threshold);
            assert forall|i: int| prev.len() - (d - 1) <= i < prev.len() implies #[trigger] prev[i]
                < threshold by {
                assert(prev[i] == readings[i]);
            }
        }
        if readings.last() < threshold && last_all_below(prev, d - 1, threshold) {
            assert forall|i: int| n - d <= i < n implies #[trigger] readings[i] < threshold by {
                if i < n - 1 {
                    assert(prev[i] == readings[i]);
                }
            }
        }
    }
}

/// Debounce, exactly: from a fresh monitor, on a reading taken while the
/// verdict is still `Normal`, the verdict leaves `Normal` exactly when the
/// last `trip_count` readings (this one included) are all below the warning
/// threshold, and becomes `Critical` exactly when they are all below the
/// critical threshold. One sag followed by a good reading never trips.
pub proof fn lemma_debounce(cfg: MonitorConfig, readings: Seq<u32>)
    requires
        cfg.critical_mv <= cfg.warn_mv,
        readings.len() > 0,
        monitor_run(
            MonitorModel { cfg, state: BatteryState::Normal, below_warn: 0, below_crit: 0 },
            readings.drop_last(),
        ).state == BatteryState::Normal,
    ensures
        ({
            let after = monitor_run(
                MonitorModel { cfg, state: BatteryState::Normal, below_warn: 0, below_crit: 0 },
                readings,
            ).state;
            &&& (after != BatteryState::Normal) <==> last_all_below(
                readings,
                trip_count(cfg),
                cfg.warn_mv as int,
            )
            &&& (after == BatteryState::Critical) <==> last_all_below(
                readings,
                trip_count(cfg),
                cfg.critical_mv as int,
            )
        }),
{
    let m0 = MonitorModel { cfg, state: BatteryState::Normal, below_warn: 0, below_crit: 0 };
    lemma_run_counters(m0, readings);
    lemma_crit_run_within_warn_run(readings, cfg.warn_mv as int, cfg.critical_mv as int);
    lemma_trailing_run_covers(readings, trip_count(cfg), cfg.warn_mv as int);
    lemma_trailing_run_covers(readings, trip_count(cfg), cfg.critical_mv as int);
}

/// A config whose recovery levels fit in `u32` admits every reading in
/// every state.
pub proof fn lemma_recovery_fits_admits_every_update(m: MonitorModel, pack_mv: int)
    requires
        m.cfg.recovery_fits(),
    ensures
        update_fits(m, pack_mv),
{
}

/// Critical debounce from every state: from a fresh monitor, once the last
/// `trip_count` readings are all below the critical threshold the verdict
/// is `Critical`, whatever it was before (a `Low` pack that keeps sagging
/// is stepped down); and a monitor that was not `Critical` becomes
/// `Critical` only on such a run.
pub proof fn lemma_critical_debounce(cfg: MonitorConfig, readings: Seq<u32>)
    requires
        readings.len() > 0,
    ensures
        ({
            let m0 = MonitorModel { cfg, state: BatteryState::Normal, below_warn: 0, below_crit: 0 };
            let before = monitor_run(m0, readings.drop_last()).state;
            let after = monitor_run(m0, readings).state;
            &&& last_all_below(readings, trip_count(cfg), cfg.critical_mv as int) ==> after
                == BatteryState::Critical
            &&& before != BatteryState::Critical ==> (after == BatteryState::Critical
                <==> last_all_below(readings, trip_count(cfg), cfg.critical_mv as int))
        }),
{
    let m0 = MonitorModel { cfg, state: BatteryState::Normal, below_warn: 0, below_crit: 0 };
    lemma_run_counters(m0, readings);
    lemma_trailing_run_covers(readings, trip_count(cfg), cfg.critical_mv as int);
    if last_all_below(readings, trip_count(cfg), cfg.critical_mv as int) {
        assert(readings[readings.len() - 1] < cfg.critical_mv);
    }
}

/// One step from `Low`: a critical counter that reaches the debounce count
/// steps the verdict down to `Critical`.
pub proof fn lemma_low_steps_down(m: MonitorModel, pack_mv: int)
    requires
        m.state == BatteryState::Low,
        count_below(m.below_crit, pack_mv < m.cfg.critical_mv) >= trip_count(m.cfg),
    ensures
        monitor_step(m, pack_mv).state == BatteryState::Critical,
{
}

} // verus!
