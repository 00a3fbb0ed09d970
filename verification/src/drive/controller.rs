//! The drive pipeline the firmware runs every tick: watchdog (link
//! liveness) → E-stop latch → battery inhibit → governor (duty cap) → slew
//! (ramp). The output says whether to brake or what to apply.
use vstd::prelude::*;
use crate::drive::cmdvel::{DriveCommand, Watchdog, WatchdogModel, elapsed_ms, stopped, watchdog_command};
use crate::drive::governor::{Governor, clamp_cap, governed, lemma_governor_bounds, scale_speed};
use crate::drive::slew::{Slew, SlewModel, lemma_slew_bounded, slew_step, step_size};

verus! {

/// Tunables for [`DriveController`].
#[derive(Debug, Clone, Copy, PartialEq, Eq, Structural)]
pub struct DriveConfig {
    /// No fresh command within this window → coast. The car uses 500 ms.
    pub watchdog_ms: u32,
    /// Duty cap, per-mille. 550 keeps 6 V TT motors happy on a 3S pack.
    pub max_duty_permille: u16,
    /// Maximum per-tick change, per-mille. 0 disables ramping.
    pub slew_step_permille: i16,
}

impl Default for DriveConfig {
    fn default() -> (c: DriveConfig)
        ensures
            c == (DriveConfig { watchdog_ms: 500, max_duty_permille: 550, slew_step_permille: 60 }),
    {
        DriveConfig { watchdog_ms: 500, max_duty_permille: 550, slew_step_permille: 60 }
    }
}

/// What the motors should do this tick.
#[derive(Debug, Clone, Copy, PartialEq, Eq, Structural)]
pub enum DriveOutput {
    /// Apply these speeds (already capped and ramped).
    Drive(DriveCommand),
    /// Actively brake (E-stop).
    Brake,
}

/// The speeds an output commands: zeros when braking.
pub open spec fn output_command(o: DriveOutput) -> DriveCommand {
    match o {
        DriveOutput::Drive(c) => c,
        DriveOutput::Brake => stopped(),
    }
}

impl DriveOutput {
    /// The commanded speeds, zeros when braking — what telemetry reports.
    pub fn command(self) -> (c: DriveCommand)
        ensures
            c == output_command(self),
    {
        match self {
            DriveOutput::Drive(c) => c,
            DriveOutput::Brake => DriveCommand { left: 0, right: 0 },
        }
    }
}

/// The controller's abstract state.
pub struct ControllerModel {
    pub watchdog: WatchdogModel,
    /// Duty cap in force, per-mille.
    pub cap: u16,
    pub slew: SlewModel,
    pub estop: bool,
    pub inhibited: bool,
    pub stale: bool,
    pub watchdog_ms: u32,
    pub last_feed_ms: Option<u32>,
}

/// `true` when a command arrived at most `watchdog_ms` (wrapping) before `now`.
pub open spec fn link_fresh_spec(c: ControllerModel, now_ms: u32) -> bool {
    match c.last_feed_ms {
        Some(t) => elapsed_ms(now_ms, t) <= c.watchdog_ms,
        None => false,
    }
}

/// The target a tick feeds into the slew limiter when not E-stopped.
pub open spec fn tick_target(c: ControllerModel, now_ms: u32) -> DriveCommand {
    if c.inhibited {
        stopped()
    } else {
        governed(watchdog_command(c.watchdog, now_ms), c.cap as int)
    }
}

/// The output of one tick.
pub open spec fn tick_output(c: ControllerModel, now_ms: u32) -> DriveOutput {
    if c.estop {
        DriveOutput::Brake
    } else {
        DriveOutput::Drive(slew_step(c.slew, tick_target(c, now_ms)))
    }
}

/// The controller after one tick.
pub open spec fn tick_next(c: ControllerModel, now_ms: u32) -> ControllerModel {
    let stale = !link_fresh_spec(c, now_ms);
    if c.estop {
        ControllerModel { stale, ..c }
    } else {
        ControllerModel {
            stale,
            slew: SlewModel { max_step: c.slew.max_step, current: slew_step(c.slew, tick_target(c, now_ms)) },
            ..c
        }
    }
}

/// The controller after a command fed at `now_ms`: the link is alive as of
/// `now_ms` either way; while the E-stop is latched the command itself is
/// dropped, otherwise the watchdog holds `cmd` as fed at `now_ms`.
pub open spec fn feed_next(c: ControllerModel, cmd: DriveCommand, now_ms: u32) -> ControllerModel {
    if c.estop {
        ControllerModel { last_feed_ms: Some(now_ms), ..c }
    } else {
        ControllerModel {
            watchdog: WatchdogModel { target: cmd, last_feed_ms: Some(now_ms), ..c.watchdog },
            last_feed_ms: Some(now_ms),
            ..c
        }
    }
}

/// The controller after the link dropped: the last command is forgotten.
pub open spec fn link_lost_next(c: ControllerModel) -> ControllerModel {
    ControllerModel {
        watchdog: WatchdogModel { target: stopped(), last_feed_ms: None, ..c.watchdog },
        last_feed_ms: None,
        ..c
    }
}

/// The controller after an E-stop: latched, the last command forgotten,
/// the ramp reset to zero.
pub open spec fn estop_next(c: ControllerModel) -> ControllerModel {
    ControllerModel {
        watchdog: WatchdogModel { target: stopped(), last_feed_ms: None, ..c.watchdog },
        last_feed_ms: None,
        estop: true,
        slew: SlewModel { current: stopped(), ..c.slew },
        ..c
    }
}

/// The internal consistency every reachable controller keeps.
pub open spec fn controller_wf(c: ControllerModel) -> bool {
    &&& c.cap <= 1000
    &&& c.slew.max_step >= 0
    &&& c.watchdog.timeout_ms == c.watchdog_ms
    &&& (c.watchdog.last_feed_ms is None || c.watchdog.last_feed_ms == c.last_feed_ms)
    &&& (c.estop ==> c.watchdog.last_feed_ms is None)
    &&& -1000 <= c.slew.current.left <= 1000
    &&& -1000 <= c.slew.current.right <= 1000
}

/// Watchdog + E-stop + inhibit + governor + slew.
#[derive(Debug, Clone, Copy)]
pub struct DriveController {
    watchdog: Watchdog,
    governor: Governor,
    slew: Slew,
    estop: bool,
    inhibited: bool,
    stale: bool,
    watchdog_ms: u32,
    last_feed_ms: Option<u32>,
}

impl View for DriveController {
    type V = ControllerModel;

    closed spec fn view(&self) -> ControllerModel {
        ControllerModel {
            watchdog: self.watchdog@,
            cap: self.governor@,
            slew: self.slew@,
            estop: self.estop,
            inhibited: self.inhibited,
            stale: self.stale,
            watchdog_ms: self.watchdog_ms,
            last_feed_ms: self.last_feed_ms,
        }
    }
}

impl DriveController {
    /// Build from config. Starts stopped, not E-stopped, link stale.
    pub fn new(cfg: DriveConfig) -> (c: DriveController)
        ensures
            c@ == (ControllerModel {
                watchdog: WatchdogModel { timeout_ms: cfg.watchdog_ms, target: stopped(), last_feed_ms: None },
                cap: clamp_cap(cfg.max_duty_permille as int) as u16,
                slew: SlewModel {
                    max_step: step_size(cfg.slew_step_permille as int) as i16,
                    current: stopped(),
                },
                estop: false,
                inhibited: false,
                stale: true,
                watchdog_ms: cfg.watchdog_ms,
                last_feed_ms: None,
            }),
            controller_wf(c@),
    {
        DriveController {
            watchdog: Watchdog::new(cfg.watchdog_ms),
            governor: Governor::new(cfg.max_duty_permille),
            slew: Slew::new(cfg.slew_step_permille),
            estop: false,
            inhibited: false,
            stale: true,
            watchdog_ms: cfg.watchdog_ms,
            last_feed_ms: None,
        }
    }

    /// A fresh command arrived from the link at `now_ms`: the link counts as
    /// alive. While the E-stop is latched the command itself is ignored, so
    /// nothing is left to replay after [`clear`](Self::clear).
    pub fn feed(&mut self, cmd: DriveCommand, now_ms: u32)
        requires
            controller_wf(old(self)@),
        ensures
            final(self)@ == feed_next(old(self)@, cmd, now_ms),
            controller_wf(final(self)@),
    {
        if !self.estop {
            self.watchdog.feed(cmd, now_ms);
        }
        self.last_feed_ms = Some(now_ms);
    }

    /// The link dropped: forget the last command immediately.
    pub fn link_lost(&mut self)
        requires
            controller_wf(old(self)@),
        ensures
            final(self)@ == link_lost_next(old(self)@),
            controller_wf(final(self)@),
    {
        self.watchdog.trip();
        self.last_feed_ms = None;
    }

    /// Latch the emergency stop. Motors brake until [`clear`](Self::clear).
    pub fn estop(&mut self)
        requires
            controller_wf(old(self)@),
        ensures
            final(self)@ == estop_next(old(self)@),
            controller_wf(final(self)@),
    {
        self.estop = true;
        self.watchdog.trip();
        self.last_feed_ms = None;
        self.slew.reset_to(DriveCommand { left: 0, right: 0 });
    }

    /// Release the emergency stop.
    pub fn clear(&mut self)
        requires
            controller_wf(old(self)@),
        ensures
            final(self)@ == (ControllerModel { estop: false, ..old(self)@ }),
            controller_wf(final(self)@),
    {
        self.estop = false;
    }

    /// `true` while the E-stop is latched.
    pub fn is_estopped(&self) -> (b: bool)
        ensures
            b == self@.estop,
    {
        self.estop
    }

    /// Inhibit driving (e.g. critical battery). Unlike E-stop this coasts
    /// rather than brakes and clears itself when `inhibited` goes false.
    pub fn set_inhibited(&mut self, inhibited: bool)
        requires
            controller_wf(old(self)@),
        ensures
            final(self)@ == (ControllerModel { inhibited, ..old(self)@ }),
            controller_wf(final(self)@),
    {
        self.inhibited = inhibited;
    }

    /// `true` if the last tick found no fresh command.
    pub fn is_stale(&self) -> (b: bool)
        ensures
            b == self@.stale,
    {
        self.stale
    }

    /// Change the duty cap, per-mille (clamped to `0..=1000`).
    pub fn set_max_duty(&mut self, permille: u16)
        requires
            controller_wf(old(self)@),
        ensures
            final(self)@ == (ControllerModel { cap: clamp_cap(permille as int) as u16, ..old(self)@ }),
            controller_wf(final(self)@),
    {
        self.governor.set_max_permille(permille);
    }

    /// The duty cap in force.
    pub fn max_duty(&self) -> (m: u16)
        ensures
            m == self@.cap,
    {
        self.governor.max_permille()
    }

    /// Run one control tick at `now_ms` and return what to apply.
    pub fn tick(&mut self, now_ms: u32) -> (out: DriveOutput)
        requires
            controller_wf(old(self)@),
        ensures
            out == tick_output(old(self)@, now_ms),
            final(self)@ == tick_next(old(self)@, now_ms),
            controller_wf(final(self)@),
    {
        self.stale = !self.link_fresh(now_ms);
        if self.estop {
            return DriveOutput::Brake;
        }
        let wanted = self.watchdog.command(now_ms);
        let target = if self.inhibited {
            DriveCommand { left: 0, right: 0 }
        } else {
            self.governor.apply(wanted)
        };
        proof {
            lemma_governor_bounds(wanted, self.governor@ as int);
            lemma_slew_bounded(self.slew@, target);
        }
        DriveOutput::Drive(self.slew.step(target))
    }

    fn link_fresh(&self, now_ms: u32) -> (b: bool)
        ensures
            b == link_fresh_spec(self@, now_ms),
    {
        match self.last_feed_ms {
            Some(t) => now_ms.wrapping_sub(t) <= self.watchdog_ms,
            None => false,
        }
    }
}

// ---------------------------------------------------------------- laws

/// E-stop latch: while latched every tick brakes, whatever was fed, and the
/// latch survives every operation but `clear`; a tick never changes the
/// watchdog, the cap, the latch or the inhibit.
pub proof fn lemma_estop_latch(c: ControllerModel, now_ms: u32)
    requires
        controller_wf(c),
    ensures
        c.estop ==> tick_output(c, now_ms) == DriveOutput::Brake,
        tick_next(c, now_ms).estop == c.estop,
        tick_next(c, now_ms).inhibited == c.inhibited,
        tick_next(c, now_ms).cap == c.cap,
        tick_next(c, now_ms).watchdog == c.watchdog,
        tick_next(c, now_ms).stale == !link_fresh_spec(c, now_ms),
{
}

/// What a tick that does not brake drives towards: zeros when inhibited or
/// when the link is stale, the capped command otherwise; every side of every
/// output stays within the cap or moves towards it from the last output, and
/// never leaves `-1000..=1000`.
pub proof fn lemma_tick_targets(c: ControllerModel, now_ms: u32)
    requires
        controller_wf(c),
        !c.estop,
    ensures
        c.inhibited ==> tick_target(c, now_ms) == stopped(),
        !link_fresh_spec(c, now_ms) ==> tick_target(c, now_ms) == stopped(),
        -(c.cap as int) <= tick_target(c, now_ms).left <= c.cap,
        -(c.cap as int) <= tick_target(c, now_ms).right <= c.cap,
        ({
            let out = output_command(tick_output(c, now_ms));
            &&& (c.slew.current.left <= out.left <= tick_target(c, now_ms).left) || (tick_target(
                c,
                now_ms,
            ).left <= out.left <= c.slew.current.left)
            &&& (c.slew.current.right <= out.right <= tick_target(c, now_ms).right) || (
            tick_target(c, now_ms).right <= out.right <= c.slew.current.right)
            &&& -1000 <= out.left <= 1000
            &&& -1000 <= out.right <= 1000
        }),
{
    lemma_governor_bounds(watchdog_command(c.watchdog, now_ms), c.cap as int);
    lemma_slew_bounded(c.slew, tick_target(c, now_ms));
}

/// One call on a drive controller, for stating what a sequence of calls does.
pub enum ControllerOp {
    /// `feed(cmd, now_ms)`.
    Feed(DriveCommand, u32),
    /// `link_lost()`.
    LinkLost,
    /// `estop()`.
    EStop,
    /// `clear()`.
    Clear,
    /// `set_inhibited(on)`.
    SetInhibited(bool),
    /// `set_max_duty(permille)`.
    SetMaxDuty(u16),
    /// `tick(now_ms)`.
    Tick(u32),
}

/// The controller after one call.
pub open spec fn op_next(c: ControllerModel, op: ControllerOp) -> ControllerModel {
    match op {
        ControllerOp::Feed(cmd, t) => feed_next(c, cmd, t),
        ControllerOp::LinkLost => link_lost_next(c),
        ControllerOp::EStop => estop_next(c),
        ControllerOp::Clear => ControllerModel { estop: false, ..c },
        ControllerOp::SetInhibited(on) => ControllerModel { inhibited: on, ..c },
        ControllerOp::SetMaxDuty(p) => ControllerModel { cap: clamp_cap(p as int) as u16, ..c },
        ControllerOp::Tick(t) => tick_next(c, t),
    }
}

/// The controller after a sequence of calls, in order.
pub open spec fn run_ops(c: ControllerModel, ops: Seq<ControllerOp>) -> ControllerModel
    decreases ops.len(),
{
    if ops.len() == 0 {
        c
    } else {
        op_next(run_ops(c, ops.drop_last()), ops.last())
    }
}

/// Latched with nothing to replay and the ramp at zero.
pub open spec fn latched_clean(c: ControllerModel) -> bool {
    &&& c.estop
    &&& c.watchdog.target == stopped()
    &&& c.watchdog.last_feed_ms is None
    &&& c.slew.current == stopped()
}

proof fn lemma_latched_stays_clean(c: ControllerModel, ops: Seq<ControllerOp>)
    requires
        latched_clean(c),
        forall|i: int| 0 <= i < ops.len() ==> !(#[trigger] ops[i] is Clear),
    ensures
        latched_clean(run_ops(c, ops)),
        run_ops(c, ops).slew.max_step == c.slew.max_step,
    decreases ops.len(),
{
    if ops.len() > 0 {
        let prev = ops.drop_last();
        assert forall|i: int| 0 <= i < prev.len() implies !(#[trigger] prev[i] is Clear) by {
            assert(prev[i] == ops[i]);
        }
        lemma_latched_stays_clean(c, prev);
        assert(!(ops[ops.len() - 1] is Clear));
    }
}

/// E-stop latch over any sequence of calls: after `estop()`, every tick
/// brakes until `clear()`, whatever is fed in between; nothing fed while
/// latched is kept, so right after `clear()` a tick drives zeros, and the
/// ramp starts again from zero.
pub proof fn lemma_estop_until_clear(c: ControllerModel, ops: Seq<ControllerOp>, now_ms: u32)
    requires
        controller_wf(c),
        forall|i: int| 0 <= i < ops.len() ==> !(#[trigger] ops[i] is Clear),
    ensures
        forall|k: int, t: u32|
            0 <= k < ops.len() && ops[k] == ControllerOp::Tick(t) ==> #[trigger] tick_output(
                run_ops(estop_next(c), ops.take(k)),
                t,
            ) == DriveOutput::Brake,
        run_ops(estop_next(c), ops).estop,
        run_ops(estop_next(c), ops).slew.current == stopped(),
        tick_output(op_next(run_ops(estop_next(c), ops), ControllerOp::Clear), now_ms)
            == DriveOutput::Drive(stopped()),
{
    let e = estop_next(c);
    assert forall|k: int, t: u32|
        0 <= k < ops.len() && ops[k] == ControllerOp::Tick(t) implies #[trigger] tick_output(
        run_ops(e, ops.take(k)),
        t,
    ) == DriveOutput::Brake by {
        let pre = ops.take(k);
        assert forall|i: int| 0 <= i < pre.len() implies !(#[trigger] pre[i] is Clear) by {
            assert(pre[i] == ops[i]);
        }
        lemma_latched_stays_clean(e, pre);
    }
    lemma_latched_stays_clean(e, ops);
    let r = op_next(run_ops(e, ops), ControllerOp::Clear);
    assert(watchdog_command(r.watchdog, now_ms) == stopped());
    assert(scale_speed(0, r.cap as int) == 0);
    assert(tick_target(r, now_ms) == stopped());
    assert(r.slew.max_step >= 0);
    assert(slew_step(r.slew, stopped()) == stopped());
}

/// `ops[i]` is the last feed, with no `link_lost()` or `estop()` after it.
pub open spec fn live_feed(ops: Seq<ControllerOp>, i: int) -> bool {
    &&& 0 <= i < ops.len()
    &&& ops[i] is Feed
    &&& forall|j: int|
        i < j < ops.len() ==> !(#[trigger] ops[j] is LinkLost) && !(ops[j] is EStop) && !(ops[j] is Feed)
}

proof fn lemma_live_feed(c: ControllerModel, ops: Seq<ControllerOp>)
    requires
        c.last_feed_ms is None,
    ensures
        run_ops(c, ops).watchdog_ms == c.watchdog_ms,
        forall|i: int| #[trigger] live_feed(ops, i) ==> run_ops(c, ops).last_feed_ms == Some(ops[i]->Feed_1),
        (forall|i: int| !#[trigger] live_feed(ops, i)) ==> run_ops(c, ops).last_feed_ms is None,
    decreases ops.len(),
{
    if ops.len() > 0 {
        let n = ops.len() as int;
        let prev = ops.drop_last();
        let op = ops.last();
        let s = run_ops(c, prev);
        lemma_live_feed(c, prev);
        if op is Feed {
            assert(live_feed(ops, n - 1));
            assert forall|i: int| #[trigger] live_feed(ops, i) implies i == n - 1 by {
                if i < n - 1 {
                    assert(ops[n - 1] is Feed);
                }
            }
        } else if op is LinkLost || op is EStop {
            assert forall|i: int| !#[trigger] live_feed(ops, i) by {
                if 0 <= i < n - 1 {
                    assert(ops[n - 1] is LinkLost || ops[n - 1] is EStop);
                }
            }
        } else {
            assert(!live_feed(ops, n - 1));
            assert(run_ops(c, ops).last_feed_ms == s.last_feed_ms);
            assert forall|i: int| #[trigger] live_feed(ops, i) <==> live_feed(prev, i) by {
                if 0 <= i < n - 1 {
                    if live_feed(ops, i) {
                        assert forall|j: int| i < j < prev.len() implies !(#[trigger] prev[j] is LinkLost)
                            && !(prev[j] is EStop) && !(prev[j] is Feed) by {
                            assert(prev[j] == ops[j]);
                        }
                    }
                    if live_feed(prev, i) {
                        assert forall|j: int| i < j < ops.len() implies !(#[trigger] ops[j] is LinkLost)
                            && !(ops[j] is EStop) && !(ops[j] is Feed) by {
                            if j < n - 1 {
                                assert(prev[j] == ops[j]);
                            }
                        }
                    }
                }
            }
            if forall|i: int| !#[trigger] live_feed(ops, i) {
                assert forall|i: int| !#[trigger] live_feed(prev, i) by {
                    assert(live_feed(ops, i) <==> live_feed(prev, i));
                }
            }
        }
    }
}

/// Staleness over any sequence of calls from a controller that has taken no
/// command (such as a new one): before any tick the link reads stale; after
/// a final `tick(now_ms)` it reads stale exactly when no command is live,
/// or the live one, fed at `t`, is more than `watchdog_ms` (wrapping)
/// older than `now_ms`. A feed is live when no later `link_lost()`,
/// `estop()` or feed followed it; a feed while latched counts, since the
/// link is alive even though its command is dropped.
pub proof fn lemma_stale_history(c: ControllerModel, ops: Seq<ControllerOp>, now_ms: u32)
    requires
        c.last_feed_ms is None,
        c.stale,
    ensures
        (forall|i: int| 0 <= i < ops.len() ==> !(#[trigger] ops[i] is Tick)) ==> run_ops(c, ops).stale,
        run_ops(c, ops.push(ControllerOp::Tick(now_ms))).stale == !exists|i: int|
            #[trigger] live_feed(ops, i) && elapsed_ms(now_ms, ops[i]->Feed_1) <= c.watchdog_ms,
    decreases ops.len(),
{
    lemma_live_feed(c, ops);
    let s = run_ops(c, ops);
    assert(ops.push(ControllerOp::Tick(now_ms)).drop_last() =~= ops);
    if exists|i: int| #[trigger] live_feed(ops, i) && elapsed_ms(now_ms, ops[i]->Feed_1) <= c.watchdog_ms {
        let i = choose|i: int| #[trigger] live_feed(ops, i) && elapsed_ms(now_ms, ops[i]->Feed_1) <= c.watchdog_ms;
        assert(s.last_feed_ms == Some(ops[i]->Feed_1));
    } else {
        if s.last_feed_ms is Some {
            let i = choose|i: int| #[trigger] live_feed(ops, i);
            assert(live_feed(ops, i));
        }
    }
    if ops.len() > 0 && (forall|i: int| 0 <= i < ops.len() ==> !(#[trigger] ops[i] is Tick)) {
        let prev = ops.drop_last();
        assert forall|i: int| 0 <= i < prev.len() implies !(#[trigger] prev[i] is Tick) by {
            assert(prev[i] == ops[i]);
        }
        lemma_stale_history(c, prev, now_ms);
        assert(!(ops[ops.len() - 1] is Tick));
    }
}

/// A command fed while not latched is what the controller drives towards
/// from then on, while it stays fresh: every tick within `watchdog_ms` of
/// the feed targets exactly that command under the cap (zeros while
/// inhibited), whatever was running before. A fed stop is a stop.
pub proof fn lemma_feed_sets_the_target(c: ControllerModel, cmd: DriveCommand, t: u32, now_ms: u32)
    requires
        controller_wf(c),
        !c.estop,
        elapsed_ms(now_ms, t) <= c.watchdog_ms,
    ensures
        watchdog_command(feed_next(c, cmd, t).watchdog, now_ms) == cmd,
        !c.inhibited ==> tick_target(feed_next(c, cmd, t), now_ms) == governed(cmd, c.cap as int),
        c.inhibited ==> tick_target(feed_next(c, cmd, t), now_ms) == stopped(),
        link_fresh_spec(feed_next(c, cmd, t), now_ms),
{
}

} // verus!
