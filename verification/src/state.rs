//! The orchestration loop's connection state machine and its adaptive
//! refresh schedule. The machine reconciles three independently-arriving
//! signals about one outstanding connection attempt — pushed notifications,
//! polled re-queries of the connected network, and a wall-clock deadline —
//! and every transition here says exactly what it does to the state, the
//! surfaced error, and the pending result slot.
use vstd::prelude::*;
use crate::config::{
    AUTO_REFRESH_INTERVAL_SECS, BURST_REFRESH_INTERVAL_SECS, CONNECTION_REFRESH_BURST,
    CONNECTION_TIMEOUT_SECS, DISCONNECT_REFRESH_BURST, INTERACTION_COOLDOWN_SECS,
    MANUAL_REFRESH_DEBOUNCE_MS, SEARCHING_REFRESH_INTERVAL_SECS,
};
use crate::error::{error_message, WifiError};
use crate::events::ConnectionEvent;
use crate::text::str_eq;

verus! {

/// Whether a connection attempt is outstanding, and to which network.
/// At most one attempt is alive at a time.
pub enum ConnectionState {
    Idle,
    Connecting { target: String, started_at: u64 },
}

/// The attempt is outstanding and aimed at `ssid`.
pub open spec fn connecting_to(s: ConnectionState, ssid: Seq<char>) -> bool {
    s matches ConnectionState::Connecting { target, .. } && target@ == ssid
}

/// The connection-attempt tracker: the state, whether a result slot for an
/// issued command is still pending, and the one user-visible error.
pub struct ConnectionTracker {
    pub state: ConnectionState,
    pub has_pending_result: bool,
    pub last_error: Option<String>,
}

/// The optional connected network named by a re-query matches the target.
pub open spec fn observed_connected(connected: Option<&String>, target: Seq<char>) -> bool {
    match connected {
        Some(c) => c@ == target,
        None => false,
    }
}

impl ConnectionTracker {
    /// A fresh tracker: idle, nothing pending, no error.
    pub fn new() -> (t: ConnectionTracker)
        ensures
            t.state is Idle,
            !t.has_pending_result,
            t.last_error is None,
    {
        ConnectionTracker { state: ConnectionState::Idle, has_pending_result: false, last_error: None }
    }

    /// Starts a connection attempt: only one may be outstanding, so the
    /// tracker must be idle. The attempt records its target and start time,
    /// and a result slot becomes pending.
    pub fn begin_attempt(&mut self, ssid: String, now_ms: u64)
        requires
            old(self).state is Idle,
        ensures
            final(self).state matches ConnectionState::Connecting { target, started_at }
                && target@ == ssid@ && started_at == now_ms,
            final(self).has_pending_result,
            final(self).last_error == old(self).last_error,
    {
        self.state = ConnectionState::Connecting { target: ssid, started_at: now_ms };
        self.has_pending_result = true;
    }

    /// Applies one pushed notification. A completion naming the target ends
    /// the attempt (fast path) and asks for a refresh burst; a disconnection
    /// asks for a refresh burst; a failure naming the target ends the
    /// attempt, surfaces the decoded reason as the error, and names the
    /// network whose broken profile should be forgotten. Events about other
    /// networks, and events while idle, change nothing: events are advisory.
    pub fn on_event(&mut self, event: &ConnectionEvent) -> (out: (Option<String>, Option<u8>))
        ensures
            match event {
                ConnectionEvent::Connected(ssid) => {
                    if connecting_to(old(self).state, ssid@) {
                        &&& final(self).state is Idle
                        &&& final(self).has_pending_result == old(self).has_pending_result
                        &&& final(self).last_error == old(self).last_error
                        &&& out.0 is None
                        &&& out.1 == Some(DISCONNECT_REFRESH_BURST)
                    } else {
                        *final(self) == *old(self) && out.0 is None && out.1 is None
                    }
                },
                ConnectionEvent::Disconnected(_) => *final(self) == *old(self) && out.0 is None
                    && out.1 == Some(DISCONNECT_REFRESH_BURST),
                ConnectionEvent::Failed { ssid, reason_code: _, reason_str } => {
                    if connecting_to(old(self).state, ssid@) {
                        &&& final(self).state is Idle
                        &&& final(self).has_pending_result == old(self).has_pending_result
                        &&& (final(self).last_error matches Some(m) && m@ == reason_str@)
                        &&& (out.0 matches Some(f) && f@ == ssid@)
                        &&& out.1 is None
                    } else {
                        *final(self) == *old(self) && out.0 is None && out.1 is None
                    }
                },
            },
    {
        match event {
            ConnectionEvent::Connected(ssid) => {
                let matched = match &self.state {
                    ConnectionState::Connecting { target, .. } => str_eq(
                        target.as_str(),
                        ssid.as_str(),
                    ),
                    ConnectionState::Idle => false,
                };
                if matched {
                    self.state = ConnectionState::Idle;
                    (None, Some(DISCONNECT_REFRESH_BURST))
                } else {
                    (None, None)
                }
            },
            ConnectionEvent::Disconnected(_) => (None, Some(DISCONNECT_REFRESH_BURST)),
            ConnectionEvent::Failed { ssid, reason_code: _, reason_str } => {
                let matched = match &self.state {
                    ConnectionState::Connecting { target, .. } => str_eq(
                        target.as_str(),
                        ssid.as_str(),
                    ),
                    ConnectionState::Idle => false,
                };
                if matched {
                    self.state = ConnectionState::Idle;
                    self.last_error = Some(reason_str.clone());
                    (Some(ssid.clone()), None)
                } else {
                    (None, None)
                }
            },
        }
    }

    /// Advances the clock and reconciles with the connected network a
    /// re-query observed. Seeing the target connected ends the attempt
    /// quietly (the fallback when the pushed event was missed); running past
    /// the deadline ends it with a timeout error and drops the pending
    /// result slot; otherwise nothing changes.
    pub fn on_tick(&mut self, now_ms: u64, connected: Option<&String>)
        requires
            old(self).state matches ConnectionState::Connecting { started_at, .. } ==> now_ms
                >= started_at,
        ensures
            match old(self).state {
                ConnectionState::Idle => *final(self) == *old(self),
                ConnectionState::Connecting { target, started_at } => {
                    if observed_connected(connected, target@) {
                        &&& final(self).state is Idle
                        &&& final(self).has_pending_result == old(self).has_pending_result
                        &&& final(self).last_error == old(self).last_error
                    } else if now_ms - started_at > CONNECTION_TIMEOUT_SECS * 1000 {
                        &&& final(self).state is Idle
                        &&& !final(self).has_pending_result
                        &&& (final(self).last_error matches Some(m) && m@
                            == "Connection timed out (No response from OS)"@)
                    } else {
                        *final(self) == *old(self)
                    }
                },
            },
    {
        let (matched, timed_out) = match &self.state {
            ConnectionState::Idle => (false, false),
            ConnectionState::Connecting { target, started_at } => {
                let m = match connected {
                    Some(c) => str_eq(c.as_str(), target.as_str()),
                    None => false,
                };
                (m, now_ms - *started_at > CONNECTION_TIMEOUT_SECS * 1000)
            },
        };
        match &self.state {
            ConnectionState::Idle => {},
            ConnectionState::Connecting { .. } => {
                if matched {
                    self.state = ConnectionState::Idle;
                } else if timed_out {
                    self.state = ConnectionState::Idle;
                    self.has_pending_result = false;
                    self.last_error = Some(
                        String::from_str("Connection timed out (No response from OS)"),
                    );
                }
            },
        }
    }

    /// Consumes the result of the issued command. The slot empties either
    /// way; a command-level error ends the attempt at once, without waiting
    /// for a native event, and surfaces the error; success keeps the attempt
    /// alive and asks for a refresh burst while the native side connects.
    pub fn on_command_result(&mut self, result: Result<(), WifiError>) -> (burst: Option<u8>)
        ensures
            !final(self).has_pending_result,
            match result {
                Ok(()) => final(self).state == old(self).state && final(self).last_error == old(
                    self,
                ).last_error && burst == Some(CONNECTION_REFRESH_BURST),
                Err(e) => final(self).state is Idle && (final(self).last_error matches Some(m)
                    && m@ == "Failed to connect: "@ + error_message(e)) && burst is None,
            },
    {
        self.has_pending_result = false;
        match result {
            Ok(()) => Some(CONNECTION_REFRESH_BURST),
            Err(e) => {
                self.state = ConnectionState::Idle;
                let mut msg = String::from_str("Failed to connect: ");
                let detail = e.message();
                msg.append(detail.as_str());
                self.last_error = Some(msg);
                None
            },
        }
    }

    /// An explicit abort: the attempt ends and the pending result slot is
    /// dropped; whatever arrives for it later is discarded as a no-op.
    pub fn abort(&mut self)
        ensures
            final(self).state is Idle,
            !final(self).has_pending_result,
            final(self).last_error == old(self).last_error,
    {
        self.state = ConnectionState::Idle;
        self.has_pending_result = false;
    }

    /// Clears the surfaced error, as any key press does.
    pub fn clear_error(&mut self)
        ensures
            final(self).state == old(self).state,
            final(self).has_pending_result == old(self).has_pending_result,
            final(self).last_error is None,
    {
        self.last_error = None;
    }
}

/// The adaptive refresh schedule: a short high-frequency burst window after
/// any action, decaying to a slower idle cadence, slower still while a
/// search is active, gated by a cooldown after the last keystroke.
pub struct RefreshSchedule {
    pub last_refresh_ms: u64,
    pub last_interaction_ms: u64,
    pub last_manual_refresh_ms: u64,
    pub burst: u8,
}

impl RefreshSchedule {
    /// The interval the schedule currently asks for, in milliseconds.
    pub open spec fn interval_spec(&self, searching: bool) -> u64 {
        if self.burst > 0 {
            (BURST_REFRESH_INTERVAL_SECS * 1000) as u64
        } else if searching {
            (SEARCHING_REFRESH_INTERVAL_SECS * 1000) as u64
        } else {
            (AUTO_REFRESH_INTERVAL_SECS * 1000) as u64
        }
    }

    /// The current refresh interval in milliseconds: one second per tick
    /// while a burst runs, slower while a search is active, the idle cadence
    /// otherwise.
    pub fn interval_ms(&self, searching: bool) -> (r: u64)
        ensures
            r == self.interval_spec(searching),
    {
        if self.burst > 0 {
            BURST_REFRESH_INTERVAL_SECS * 1000
        } else if searching {
            SEARCHING_REFRESH_INTERVAL_SECS * 1000
        } else {
            AUTO_REFRESH_INTERVAL_SECS * 1000
        }
    }

    /// Whether a background refresh is due: never while one already runs or
    /// a blocking entry popup is open, and otherwise exactly when the
    /// interval has elapsed and typing has cooled down.
    pub fn due(&self, now_ms: u64, searching: bool, refreshing: bool, popup_open: bool) -> (r:
        bool)
        requires
            now_ms >= self.last_refresh_ms,
            now_ms >= self.last_interaction_ms,
        ensures
            r == (!refreshing && !popup_open && now_ms - self.last_refresh_ms
                >= self.interval_spec(searching) && now_ms - self.last_interaction_ms
                >= INTERACTION_COOLDOWN_SECS * 1000),
    {
        !refreshing && !popup_open && now_ms - self.last_refresh_ms >= self.interval_ms(searching)
            && now_ms - self.last_interaction_ms >= INTERACTION_COOLDOWN_SECS * 1000
    }

    /// Notes that a refresh fires now: one burst tick is spent, and the
    /// interval restarts.
    pub fn fire(&mut self, now_ms: u64)
        ensures
            final(self).last_refresh_ms == now_ms,
            final(self).burst == if old(self).burst > 0 {
                (old(self).burst - 1) as u8
            } else {
                0u8
            },
            final(self).last_interaction_ms == old(self).last_interaction_ms,
            final(self).last_manual_refresh_ms == old(self).last_manual_refresh_ms,
    {
        if self.burst > 0 {
            self.burst = self.burst - 1;
        }
        self.last_refresh_ms = now_ms;
    }

    /// Notes a keystroke, restarting the typing cooldown.
    pub fn note_interaction(&mut self, now_ms: u64)
        ensures
            final(self).last_interaction_ms == now_ms,
            final(self).last_refresh_ms == old(self).last_refresh_ms,
            final(self).last_manual_refresh_ms == old(self).last_manual_refresh_ms,
            final(self).burst == old(self).burst,
    {
        self.last_interaction_ms = now_ms;
    }

    /// Opens a burst window of `n` fast refreshes.
    pub fn start_burst(&mut self, n: u8)
        ensures
            final(self).burst == n,
            final(self).last_refresh_ms == old(self).last_refresh_ms,
            final(self).last_interaction_ms == old(self).last_interaction_ms,
            final(self).last_manual_refresh_ms == old(self).last_manual_refresh_ms,
    {
        self.burst = n;
    }

    /// Whether a manual refresh may run now: rapid repeats are debounced.
    /// When it may, the debounce window restarts.
    pub fn try_manual_refresh(&mut self, now_ms: u64) -> (r: bool)
        requires
            now_ms >= old(self).last_manual_refresh_ms,
        ensures
            r == (now_ms - old(self).last_manual_refresh_ms >= MANUAL_REFRESH_DEBOUNCE_MS),
            final(self).last_manual_refresh_ms == if r {
                now_ms
            } else {
                old(self).last_manual_refresh_ms
            },
            final(self).last_refresh_ms == old(self).last_refresh_ms,
            final(self).last_interaction_ms == old(self).last_interaction_ms,
            final(self).burst == old(self).burst,
    {
        if now_ms - self.last_manual_refresh_ms >= MANUAL_REFRESH_DEBOUNCE_MS {
            self.last_manual_refresh_ms = now_ms;
            true
        } else {
            false
        }
    }
}

} // verus!
