//! Stuck detection: observes screen hashes and executed actions across ticks
//! and escalates through recovery strategies (hint, back, home-and-relaunch)
//! before giving up.

use vstd::prelude::*;
use crate::util::{str_eq, u64_to_string, take_prefix, take_chars, str_chars, chars_to_string,
    i64_to_string, dec_digits, dec_int};

verus! {

// ── Configuration ───────────────────────────────────────────────────────────

/// Stuck detection thresholds and strategy.
pub struct StuckConfig {
    /// How many consecutive identical screen hashes before declaring stuck.
    pub screen_threshold: u32,
    /// Sliding window size for tracking recent actions.
    pub repetition_window: usize,
    /// How many identical actions in the window before declaring repetition.
    pub repetition_threshold: u32,
    /// How many consecutive navigation-only actions before declaring drift.
    pub drift_threshold: u32,
    /// Maximum recovery escalations before giving up on the goal.
    pub max_recovery_attempts: u32,
    /// Recovery strategy: "escalate", "back", "restart" or "ask".
    pub recovery_strategy: String,
}

impl Default for StuckConfig {
    /// The default thresholds: stuck after three identical screens, three
    /// repeats in a window of six, five navigation-only actions, and at most
    /// three recovery attempts, escalating.
    fn default() -> (r: Self)
        ensures
            r.screen_threshold == 3,
            r.repetition_window == 6,
            r.repetition_threshold == 3,
            r.drift_threshold == 5,
            r.max_recovery_attempts == 3,
            r.recovery_strategy@ == "escalate"@,
    {
        StuckConfig {
            screen_threshold: 3,
            repetition_window: 6,
            repetition_threshold: 3,
            drift_threshold: 5,
            max_recovery_attempts: 3,
            recovery_strategy: "escalate".to_owned(),
        }
    }
}

// ── Result types ────────────────────────────────────────────────────────────

/// The result of checking for stuck conditions.
pub enum StuckStatus {
    /// Not stuck; continue normally.
    Continue,
    /// Stuck detected; inject this hint into the model prompt.
    Hint(StuckHint),
    /// Recovery action needed; execute it before the next model call.
    Recover(RecoveryAction),
    /// All recovery attempts exhausted; abandon the goal.
    GiveUp(String),
}

/// A hint to inject into the model prompt.
pub struct StuckHint {
    pub reason: StuckReason,
    pub message: String,
}

/// Why the loop is stuck.
pub enum StuckReason {
    /// The screen has not changed for this many steps.
    ScreenUnchanged { consecutive: u32 },
    /// The same action was repeated this often in the recent window.
    ActionRepetition { action: String, count: u32 },
    /// Too many navigation actions without real interaction.
    NavigationDrift { consecutive: u32 },
}

/// A concrete recovery action to execute.
pub enum RecoveryAction {
    /// Press the back key.
    Back,
    /// Press home, wait, then relaunch the target app.
    HomeAndRelaunch { app_package: Option<String> },
    /// Force-stop the app and relaunch it.
    ForceStopAndRelaunch { app_package: String },
}

// ── Mathematical model ──────────────────────────────────────────────────────

/// The abstract state of a detector: its counters, window and configuration.
pub ghost struct DetectorState {
    pub screen_count: u32,
    pub last_hash: u64,
    pub recent: Seq<(Seq<char>, Seq<char>)>,
    pub nav: u32,
    pub attempts: u32,
    pub level: u32,
    pub screen_threshold: u32,
    pub repetition_window: int,
    pub repetition_threshold: u32,
    pub drift_threshold: u32,
    pub max_attempts: u32,
    pub strategy: Seq<char>,
}

/// The abstract stuck reason.
pub ghost enum SpecReason {
    RScreen(u32),
    RRepeat(Seq<char>, u32),
    RDrift(u32),
}

/// The abstract result of a detector step.
pub ghost enum SpecStatus {
    SOk,
    SHint(SpecReason),
    SBack,
    SHome,
    SGiveUp(u32, SpecReason),
}

/// Increment that stops at the largest representable value.
pub open spec fn sat_inc(x: u32) -> u32 {
    if x == u32::MAX {
        x
    } else {
        (x + 1) as u32
    }
}

/// The hint text for a stuck reason.
pub open spec fn spec_stuck_context(reason: SpecReason) -> Seq<char> {
    match reason {
        SpecReason::RScreen(n) => "STUCK: The screen has not changed for "@ + dec_digits(n as int)
            + " consecutive steps. Your previous actions had no visible effect. Try a different approach: tap a different element, scroll, press back, or check for a blocking dialog or permission prompt."@,
        SpecReason::RRepeat(a, n) => "STUCK: You have repeated '"@ + a + "' "@ + dec_digits(
            n as int,
        )
            + " times recently. This action is not making progress. Stop repeating it and try something completely different, or use a different path to achieve the goal."@,
        SpecReason::RDrift(n) => "STUCK: You have performed "@ + dec_digits(n as int)
            + " consecutive navigation actions (back/swipe/wait) without tapping or typing anything. Take a direct action: tap a specific UI element or type text into a field."@,
    }
}

/// A short tag naming a stuck reason.
pub open spec fn reason_tag(reason: SpecReason) -> Seq<char> {
    match reason {
        SpecReason::RScreen(_) => "screen-unchanged"@,
        SpecReason::RRepeat(_, _) => "action-repetition"@,
        SpecReason::RDrift(_) => "navigation-drift"@,
    }
}

/// The message reported when recovery is abandoned.
pub open spec fn spec_giveup_message(max_attempts: u32, reason: SpecReason) -> Seq<char> {
    "Exhausted "@ + dec_digits(max_attempts as int) + " recovery attempts (reason: "@ + reason_tag(
        reason,
    ) + ")"@
}

/// The view of a concrete stuck reason.
pub open spec fn reason_view(r: StuckReason) -> SpecReason {
    match r {
        StuckReason::ScreenUnchanged { consecutive } => SpecReason::RScreen(consecutive),
        StuckReason::ActionRepetition { action, count } => SpecReason::RRepeat(action@, count),
        StuckReason::NavigationDrift { consecutive } => SpecReason::RDrift(consecutive),
    }
}

/// A concrete status reports exactly what the abstract one prescribes,
/// including the hint and give-up texts.
pub open spec fn status_matches(r: StuckStatus, s: SpecStatus) -> bool {
    match s {
        SpecStatus::SOk => r matches StuckStatus::Continue,
        SpecStatus::SHint(reason) => r matches StuckStatus::Hint(h) && reason_view(h.reason)
            == reason && h.message@ == spec_stuck_context(reason),
        SpecStatus::SBack => r matches StuckStatus::Recover(RecoveryAction::Back),
        SpecStatus::SHome => r matches StuckStatus::Recover(
            RecoveryAction::HomeAndRelaunch { app_package },
        ) && app_package is None,
        SpecStatus::SGiveUp(maxa, reason) => r matches StuckStatus::GiveUp(m) && m@
            == spec_giveup_message(maxa, reason),
    }
}

/// One escalation step: raise the level and dispatch by it — a hint first,
/// then pressing back, then home-and-relaunch.  Back and home reset the
/// screen and navigation counters; home also clears the window.
pub open spec fn spec_escalate(st: DetectorState, reason: SpecReason) -> (SpecStatus,
    DetectorState) {
    let level2 = sat_inc(st.level);
    if level2 == 1 {
        (SpecStatus::SHint(reason), DetectorState { level: level2, ..st })
    } else if level2 == 2 {
        (SpecStatus::SBack, DetectorState { level: level2, screen_count: 0, nav: 0, ..st })
    } else {
        (SpecStatus::SHome, DetectorState {
            level: level2,
            screen_count: 0,
            nav: 0,
            recent: Seq::empty(),
            ..st
        })
    }
}

/// A stuck detection: count the attempt; past the budget give up, otherwise
/// dispatch by strategy ("escalate" steps through the levels, "back" and
/// "restart" force one action, anything else hints).
pub open spec fn spec_handle_stuck(st: DetectorState, reason: SpecReason) -> (SpecStatus,
    DetectorState) {
    let att = sat_inc(st.attempts);
    let st1 = DetectorState { attempts: att, ..st };
    if att > st.max_attempts {
        (SpecStatus::SGiveUp(st.max_attempts, reason), st1)
    } else if st.strategy == "escalate"@ {
        spec_escalate(st1, reason)
    } else if st.strategy == "back"@ {
        (SpecStatus::SBack, st1)
    } else if st.strategy == "restart"@ {
        (SpecStatus::SHome, st1)
    } else {
        (SpecStatus::SHint(reason), st1)
    }
}

/// One screen observation: an unchanged non-zero hash counts toward the
/// threshold and then routes to stuck handling; a changed hash records the
/// new baseline (which counts as its first sighting only for the very first
/// observation), resets the counter and de-escalates by exactly one level.
pub open spec fn spec_check_screen(st: DetectorState, hash: u64) -> (SpecStatus, DetectorState) {
    if hash == st.last_hash && st.last_hash != 0 {
        let c = sat_inc(st.screen_count);
        let st1 = DetectorState { screen_count: c, ..st };
        if c >= st.screen_threshold {
            spec_handle_stuck(st1, SpecReason::RScreen(c))
        } else {
            (SpecStatus::SOk, st1)
        }
    } else {
        let lvl: u32 = if st.level > 0 {
            (st.level - 1) as u32
        } else {
            0
        };
        let base: u32 = if st.last_hash == 0 {
            1
        } else {
            0
        };
        (SpecStatus::SOk, DetectorState { screen_count: base, last_hash: hash, level: lvl, ..st })
    }
}

/// Drop entries from the front until the window fits.
pub open spec fn trim_window(s: Seq<(Seq<char>, Seq<char>)>, w: int) -> Seq<(Seq<char>, Seq<char>)>
    decreases s.len(),
{
    if s.len() > w && s.len() > 0 {
        trim_window(s.drop_first(), w)
    } else {
        s
    }
}

/// How often a fingerprint occurs in the window.
pub open spec fn count_eq(s: Seq<(Seq<char>, Seq<char>)>, e: (Seq<char>, Seq<char>)) -> int
    decreases s.len(),
{
    if s.len() == 0 {
        0
    } else {
        (if s[0] == e {
            1int
        } else {
            0int
        }) + count_eq(s.drop_first(), e)
    }
}

/// Whether an action type is purely navigational.
pub open spec fn spec_is_nav(t: Seq<char>) -> bool {
    t == "back"@ || t == "swipe"@ || t == "wait"@ || t == "home"@ || t == "scroll"@
}

/// One recorded action: push the fingerprint into the sliding window, route
/// to stuck handling on repetition or navigation drift, and otherwise track
/// the consecutive-navigation counter.  Purely navigational actions count
/// toward drift, not toward repetition: pressing back or scrolling again is
/// what navigation looks like, not a repeated dead tap.
pub open spec fn spec_record_action(st: DetectorState, t: Seq<char>, k: Seq<char>) -> (SpecStatus,
    DetectorState) {
    let recent2 = trim_window(st.recent.push((t, k)), st.repetition_window);
    let cnt = count_eq(recent2, (t, k));
    let st1 = DetectorState { recent: recent2, ..st };
    if cnt >= st.repetition_threshold && !spec_is_nav(t) {
        spec_handle_stuck(st1, SpecReason::RRepeat(t + ":"@ + k, cnt as u32))
    } else if spec_is_nav(t) {
        let nav2 = sat_inc(st.nav);
        let st2 = DetectorState { nav: nav2, ..st1 };
        if nav2 >= st.drift_threshold {
            spec_handle_stuck(st2, SpecReason::RDrift(nav2))
        } else {
            (SpecStatus::SOk, st2)
        }
    } else {
        (SpecStatus::SOk, DetectorState { nav: 0, ..st1 })
    }
}

// ── Detector ────────────────────────────────────────────────────────────────

/// A compact fingerprint of an action for repetition detection.
struct ActionFingerprint {
    action_type: String,
    target: String,
}

/// Tracks agent state across steps to detect stuck conditions.  Create one
/// per goal run.
pub struct StuckDetector {
    config: StuckConfig,
    screen_same_count: u32,
    last_screen_hash: u64,
    recent_actions: Vec<ActionFingerprint>,
    consecutive_nav_actions: u32,
    recovery_attempts: u32,
    escalation_level: u32,
}

impl StuckDetector {
    /// The abstract state of this detector.
    pub closed spec fn st(&self) -> DetectorState {
        DetectorState {
            screen_count: self.screen_same_count,
            last_hash: self.last_screen_hash,
            recent: self.recent_actions@.map_values(
                |f: ActionFingerprint| (f.action_type@, f.target@),
            ),
            nav: self.consecutive_nav_actions,
            attempts: self.recovery_attempts,
            level: self.escalation_level,
            screen_threshold: self.config.screen_threshold,
            repetition_window: self.config.repetition_window as int,
            repetition_threshold: self.config.repetition_threshold,
            drift_threshold: self.config.drift_threshold,
            max_attempts: self.config.max_recovery_attempts,
            strategy: self.config.recovery_strategy@,
        }
    }

    /// Well-formedness: the window never exceeds its configured size, and the
    /// size fits the machine's counters.
    pub closed spec fn wf(&self) -> bool {
        &&& self.recent_actions@.len() <= self.config.repetition_window as int
        &&& self.config.repetition_window < 0xffffffff
    }

    /// A fresh detector with all counters at zero.
    pub fn new(config: StuckConfig) -> (r: Self)
        requires
            config.repetition_window < 0xffffffff,
        ensures
            r.wf(),
            r.st() == (DetectorState {
                screen_count: 0,
                last_hash: 0,
                recent: Seq::empty(),
                nav: 0,
                attempts: 0,
                level: 0,
                screen_threshold: config.screen_threshold,
                repetition_window: config.repetition_window as int,
                repetition_threshold: config.repetition_threshold,
                drift_threshold: config.drift_threshold,
                max_attempts: config.max_recovery_attempts,
                strategy: config.recovery_strategy@,
            }),
    {
        let r = StuckDetector {
            config,
            screen_same_count: 0,
            last_screen_hash: 0,
            recent_actions: Vec::new(),
            consecutive_nav_actions: 0,
            recovery_attempts: 0,
            escalation_level: 0,
        };
        proof {
            assert(r.st().recent =~= Seq::<(Seq<char>, Seq<char>)>::empty());
        }
        r
    }

    /// Observe a screen hash; see `spec_check_screen` for the exact effect.
    pub fn check_screen(&mut self, screen_hash: u64) -> (r: StuckStatus)
        requires
            old(self).wf(),
        ensures
            final(self).wf(),
            status_matches(r, spec_check_screen(old(self).st(), screen_hash).0),
            final(self).st() == spec_check_screen(old(self).st(), screen_hash).1,
    {
        if screen_hash == self.last_screen_hash && self.last_screen_hash != 0 {
            self.screen_same_count = sat_inc_exec(self.screen_same_count);
            if self.screen_same_count >= self.config.screen_threshold {
                let reason = StuckReason::ScreenUnchanged { consecutive: self.screen_same_count };
                return self.handle_stuck(reason);
            }
            StuckStatus::Continue
        } else {
            self.screen_same_count = if self.last_screen_hash == 0 {
                1
            } else {
                0
            };
            self.last_screen_hash = screen_hash;
            if self.escalation_level > 0 {
                self.escalation_level = self.escalation_level - 1;
            }
            StuckStatus::Continue
        }
    }

    /// Record an executed action; see `spec_record_action` for the exact
    /// effect on the sliding window and the drift counter.
    pub fn record_action(&mut self, action_type: &str, target: &str) -> (r: StuckStatus)
        requires
            old(self).wf(),
        ensures
            final(self).wf(),
            status_matches(r, spec_record_action(old(self).st(), action_type@, target@).0),
            final(self).st() == spec_record_action(old(self).st(), action_type@, target@).1,
    {
        let ghost st0 = self.st();
        let fp = ActionFingerprint {
            action_type: action_type.to_owned(),
            target: target.to_owned(),
        };
        let ghost fpv = (action_type@, target@);
        let ghost pushed = st0.recent.push(fpv);
        self.recent_actions.push(fp);
        proof {
            assert(self.st().recent =~= pushed);
        }
        let w = self.config.repetition_window;
        while self.recent_actions.len() > w
            invariant
                w == self.config.repetition_window,
                w < 0xffffffff,
                trim_window(self.st().recent, w as int) == trim_window(pushed, w as int),
                self.recent_actions@.len() <= pushed.len(),
                self.config == old(self).config,
                self.screen_same_count == old(self).screen_same_count,
                self.last_screen_hash == old(self).last_screen_hash,
                self.consecutive_nav_actions == old(self).consecutive_nav_actions,
                self.recovery_attempts == old(self).recovery_attempts,
                self.escalation_level == old(self).escalation_level,
            decreases self.recent_actions@.len(),
        {
            let ghost before = self.st().recent;
            self.recent_actions.remove(0);
            proof {
                assert(self.st().recent =~= before.drop_first());
            }
        }
        proof {
            assert(trim_window(self.st().recent, w as int) == self.st().recent);
            assert(self.st().recent == trim_window(pushed, w as int));
        }
        let ghost trimmed = trim_window(pushed, w as int);

        // Count occurrences of the fingerprint in the window.
        let n = self.recent_actions.len();
        let mut cnt: usize = 0;
        let mut i: usize = 0;
        proof {
            assert(trimmed.skip(0) =~= trimmed);
        }
        while i < n
            invariant
                i <= n,
                n == self.recent_actions@.len(),
                self.st().recent == trimmed,
                fpv == (action_type@, target@),
                cnt + count_eq(trimmed.skip(i as int), fpv) == count_eq(trimmed, fpv),
                cnt <= i,
            decreases n - i,
        {
            let ghost suffix = trimmed.skip(i as int);
            let matches_fp = str_eq(self.recent_actions[i].action_type.as_str(), action_type)
                && str_eq(self.recent_actions[i].target.as_str(), target);
            proof {
                assert(trimmed[i as int] == (self.recent_actions@[i as int].action_type@,
                    self.recent_actions@[i as int].target@));
                assert(suffix[0] == trimmed[i as int]);
                assert(suffix.drop_first() =~= trimmed.skip(i + 1));
                assert(matches_fp == (suffix[0] == fpv));
            }
            if matches_fp {
                cnt += 1;
            }
            i += 1;
        }
        proof {
            assert(trimmed.skip(n as int) =~= Seq::<(Seq<char>, Seq<char>)>::empty());
            assert(cnt == count_eq(trimmed, fpv));
        }

        let is_nav = str_eq(action_type, "back") || str_eq(action_type, "swipe") || str_eq(
            action_type,
            "wait",
        ) || str_eq(action_type, "home") || str_eq(action_type, "scroll");
        if cnt as u64 >= self.config.repetition_threshold as u64 && !is_nav {
            let mut desc = action_type.to_owned();
            desc.append(":");
            desc.append(target);
            let reason = StuckReason::ActionRepetition { action: desc, count: cnt as u32 };
            return self.handle_stuck(reason);
        }

        if is_nav {
            self.consecutive_nav_actions = sat_inc_exec(self.consecutive_nav_actions);
            if self.consecutive_nav_actions >= self.config.drift_threshold {
                let reason = StuckReason::NavigationDrift {
                    consecutive: self.consecutive_nav_actions,
                };
                return self.handle_stuck(reason);
            }
            StuckStatus::Continue
        } else {
            self.consecutive_nav_actions = 0;
            StuckStatus::Continue
        }
    }

    /// The hint text injected into the model prompt for a stuck reason.
    pub fn build_stuck_context(&self, reason: &StuckReason) -> (r: String)
        ensures
            r@ == spec_stuck_context(reason_view(*reason)),
    {
        match reason {
            StuckReason::ScreenUnchanged { consecutive } => {
                let mut out = "STUCK: The screen has not changed for ".to_owned();
                let num = u64_to_string(*consecutive as u64);
                out.append(num.as_str());
                out.append(
                    " consecutive steps. Your previous actions had no visible effect. Try a different approach: tap a different element, scroll, press back, or check for a blocking dialog or permission prompt.",
                );
                out
            },
            StuckReason::ActionRepetition { action, count } => {
                let mut out = "STUCK: You have repeated '".to_owned();
                out.append(action.as_str());
                out.append("' ");
                let num = u64_to_string(*count as u64);
                out.append(num.as_str());
                out.append(
                    " times recently. This action is not making progress. Stop repeating it and try something completely different, or use a different path to achieve the goal.",
                );
                out
            },
            StuckReason::NavigationDrift { consecutive } => {
                let mut out = "STUCK: You have performed ".to_owned();
                let num = u64_to_string(*consecutive as u64);
                out.append(num.as_str());
                out.append(
                    " consecutive navigation actions (back/swipe/wait) without tapping or typing anything. Take a direct action: tap a specific UI element or type text into a field.",
                );
                out
            },
        }
    }

    /// Reset all counters, for instance when a new workflow step starts.
    pub fn reset(&mut self)
        requires
            old(self).wf(),
        ensures
            final(self).wf(),
            final(self).st() == (DetectorState {
                screen_count: 0,
                last_hash: 0,
                recent: Seq::empty(),
                nav: 0,
                attempts: 0,
                level: 0,
                ..old(self).st()
            }),
    {
        self.screen_same_count = 0;
        self.last_screen_hash = 0;
        self.recent_actions = Vec::new();
        self.consecutive_nav_actions = 0;
        self.recovery_attempts = 0;
        self.escalation_level = 0;
        proof {
            assert(self.st().recent =~= Seq::<(Seq<char>, Seq<char>)>::empty());
        }
    }

    /// The number of recovery attempts so far.
    pub fn recovery_attempts(&self) -> (r: u32)
        ensures
            r == self.st().attempts,
    {
        self.recovery_attempts
    }

    /// Route a detected stuck condition; see `spec_handle_stuck`.
    fn handle_stuck(&mut self, reason: StuckReason) -> (r: StuckStatus)
        requires
            old(self).wf(),
        ensures
            final(self).wf(),
            status_matches(r, spec_handle_stuck(old(self).st(), reason_view(reason)).0),
            final(self).st() == spec_handle_stuck(old(self).st(), reason_view(reason)).1,
    {
        self.recovery_attempts = sat_inc_exec(self.recovery_attempts);
        if self.recovery_attempts > self.config.max_recovery_attempts {
            let mut msg = "Exhausted ".to_owned();
            let num = u64_to_string(self.config.max_recovery_attempts as u64);
            msg.append(num.as_str());
            msg.append(" recovery attempts (reason: ");
            match &reason {
                StuckReason::ScreenUnchanged { .. } => msg.append("screen-unchanged"),
                StuckReason::ActionRepetition { .. } => msg.append("action-repetition"),
                StuckReason::NavigationDrift { .. } => msg.append("navigation-drift"),
            }
            msg.append(")");
            return StuckStatus::GiveUp(msg);
        }
        if str_eq(self.config.recovery_strategy.as_str(), "escalate") {
            return self.escalate_recovery(reason);
        }
        if str_eq(self.config.recovery_strategy.as_str(), "back") {
            return StuckStatus::Recover(RecoveryAction::Back);
        }
        if str_eq(self.config.recovery_strategy.as_str(), "restart") {
            return StuckStatus::Recover(RecoveryAction::HomeAndRelaunch { app_package: None });
        }
        let message = self.build_stuck_context(&reason);
        StuckStatus::Hint(StuckHint { reason, message })
    }

    /// Escalate one level and dispatch; see `spec_escalate`.
    fn escalate_recovery(&mut self, reason: StuckReason) -> (r: StuckStatus)
        requires
            old(self).wf(),
        ensures
            final(self).wf(),
            status_matches(r, spec_escalate(old(self).st(), reason_view(reason)).0),
            final(self).st() == spec_escalate(old(self).st(), reason_view(reason)).1,
    {
        self.escalation_level = sat_inc_exec(self.escalation_level);
        if self.escalation_level == 1 {
            let message = self.build_stuck_context(&reason);
            StuckStatus::Hint(StuckHint { reason, message })
        } else if self.escalation_level == 2 {
            self.screen_same_count = 0;
            self.consecutive_nav_actions = 0;
            StuckStatus::Recover(RecoveryAction::Back)
        } else {
            self.screen_same_count = 0;
            self.consecutive_nav_actions = 0;
            self.recent_actions = Vec::new();
            proof {
                assert(self.st().recent =~= Seq::<(Seq<char>, Seq<char>)>::empty());
            }
            StuckStatus::Recover(RecoveryAction::HomeAndRelaunch { app_package: None })
        }
    }
}

/// Saturating increment, mirroring `sat_inc`.
fn sat_inc_exec(x: u32) -> (r: u32)
    ensures
        r == sat_inc(x),
{
    if x == u32::MAX {
        x
    } else {
        x + 1
    }
}

// ── Fingerprint keys ────────────────────────────────────────────────────────

/// The target key an action contributes to repetition fingerprints.
pub open spec fn spec_action_target_key(
    t: Seq<char>,
    x: Option<i32>,
    y: Option<i32>,
    text: Option<Seq<char>>,
    app: Option<Seq<char>>,
) -> Seq<char> {
    if t == "tap"@ || t == "long_press"@ {
        match (x, y) {
            (Some(xv), Some(yv)) => dec_int(xv as int) + ","@ + dec_int(yv as int),
            _ => "unknown"@,
        }
    } else if t == "type_text"@ {
        match text {
            Some(s) => take_chars(s, 30),
            None => Seq::empty(),
        }
    } else if t == "launch_app"@ {
        match app {
            Some(s) => s,
            None => "unknown"@,
        }
    } else if t == "swipe"@ {
        match text {
            Some(s) => s,
            None => "unknown"@,
        }
    } else {
        t
    }
}

/// Extract a target key from an action for fingerprinting: coordinates for
/// taps, a text prefix for typing, the package for launches.
pub fn action_target_key(
    action_type: &str,
    x: Option<i32>,
    y: Option<i32>,
    text: Option<&str>,
    app: Option<&str>,
) -> (r: String)
    ensures
        r@ == spec_action_target_key(action_type@, x, y,
            match text {
                Some(s) => Some(s@),
                None => None,
            },
            match app {
                Some(s) => Some(s@),
                None => None,
            }),
{
    if str_eq(action_type, "tap") || str_eq(action_type, "long_press") {
        match (x, y) {
            (Some(xv), Some(yv)) => {
                let mut out = i64_to_string(xv as i64);
                out.append(",");
                let ys = i64_to_string(yv as i64);
                out.append(ys.as_str());
                out
            },
            _ => "unknown".to_owned(),
        }
    } else if str_eq(action_type, "type_text") {
        match text {
            Some(s) => {
                let cs = str_chars(s);
                let prefix = take_prefix(&cs, 30);
                chars_to_string(&prefix)
            },
            None => {
                let r = String::new();
                assert(r@ =~= Seq::<char>::empty());
                r
            },
        }
    } else if str_eq(action_type, "launch_app") {
        match app {
            Some(s) => s.to_owned(),
            None => "unknown".to_owned(),
        }
    } else if str_eq(action_type, "swipe") {
        match text {
            Some(s) => s.to_owned(),
            None => "unknown".to_owned(),
        }
    } else {
        action_type.to_owned()
    }
}

// ── Laws ────────────────────────────────────────────────────────────────────

/// Escalation strictly increases the level: under the escalating strategy,
/// every stuck detection that does not give up raises the escalation level by
/// exactly one (until the counter's machine limit).
pub proof fn lemma_escalation_increases(st: DetectorState, reason: SpecReason)
    requires
        st.strategy == "escalate"@,
        sat_inc(st.attempts) <= st.max_attempts,
        st.level < u32::MAX,
    ensures
        spec_handle_stuck(st, reason).1.level == st.level + 1,
{
}

/// An observed screen change lowers the escalation level by exactly one, and
/// never below zero; an unchanged screen never lowers it.
pub proof fn lemma_deescalation_bounded(st: DetectorState, hash: u64)
    ensures
        (hash != st.last_hash || st.last_hash == 0) ==> spec_check_screen(st, hash).1.level == (
        if st.level > 0 {
            st.level - 1
        } else {
            0
        }),
        (hash == st.last_hash && st.last_hash != 0) ==> spec_check_screen(st, hash).1.level
            >= st.level,
{
}

/// Once the recovery budget is exhausted, every further stuck detection
/// reports give-up, whatever the trigger was.
pub proof fn lemma_giveup_after_max(st: DetectorState, reason: SpecReason)
    requires
        st.attempts >= st.max_attempts,
        st.attempts < u32::MAX,
    ensures
        spec_handle_stuck(st, reason).0 matches SpecStatus::SGiveUp(_, _),
{
}


/// Repetition is detected regardless of interleaving: once the same
/// non-navigational fingerprint sits in the window at least
/// `repetition_threshold` times, recording it routes to stuck handling,
/// whatever other actions came between the occurrences.  Navigational
/// actions (back, swipe, wait, home, scroll) are a deliberate exception —
/// repeating them is what navigation looks like, so they feed the drift
/// counter instead; recording the same swipe three times stays in the
/// ordinary path.
pub proof fn lemma_repetition_triggers(st: DetectorState, t: Seq<char>, k: Seq<char>)
    requires
        !spec_is_nav(t),
        count_eq(trim_window(st.recent.push((t, k)), st.repetition_window), (t, k))
            >= st.repetition_threshold,
    ensures
        !(spec_record_action(st, t, k).0 is SOk),
{
    let recent2 = trim_window(st.recent.push((t, k)), st.repetition_window);
    let cnt = count_eq(recent2, (t, k));
    let st1 = DetectorState { recent: recent2, ..st };
    lemma_handle_stuck_not_ok(st1, SpecReason::RRepeat(t + ":"@ + k, cnt as u32));
}

/// A stuck detection never reports the ordinary path: it hints, recovers or
/// gives up.
pub proof fn lemma_handle_stuck_not_ok(st: DetectorState, reason: SpecReason)
    ensures
        !(spec_handle_stuck(st, reason).0 is SOk),
{
}

} // verus!
