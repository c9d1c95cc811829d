//! Health of the book and user streams.

use crate::text::{count_chars, count_text, wide_count_text};
use crate::time::{nanos_of_time, utc_now};
use std::collections::VecDeque;
use std::time::Instant;
use vstd::prelude::*;
use vstd::string::*;

pub mod laws;

verus! {

/// `std`'s monotonic clock reading.
#[verifier::external_type_specification]
#[verifier::external_body]
pub struct ExInstant(Instant);

/// A reading of the monotonic clock, by `std::time::Instant::now`. Nothing is stated of it.
#[verifier::external_body]
fn clock_now() -> (r: Instant) {
    Instant::now()
}

/// Nanoseconds since `epoch`, by `std::time::Instant::elapsed`. Nothing is stated of them.
#[verifier::external_body]
fn nanos_since(epoch: &Instant) -> (r: u64) {
    epoch.elapsed().as_nanos() as u64
}

/// No message is older than this on a tracker's clock: the wall clock counts no further.
const EARLIEST_MESSAGE: i128 = -18_446_744_073_709_551_616;

/// Thresholds of the watchdog.
#[derive(Debug)]
pub struct WatchdogConfig {
    pub enabled: bool,
    pub enforce_actions: bool,
    pub max_book_ws_silence_secs: u64,
    pub max_user_ws_silence_secs: u64,
    pub max_reconnects_in_window: u32,
    pub reconnect_window_secs: u64,
    pub max_consecutive_disconnects: u32,
    pub degraded_timeout_secs: u64,
    pub kill_confirmation_delay_secs: u64,
    pub status_poll_interval_secs: u64,
    pub status_page_url: String,
    pub critical_components: Vec<String>,
    pub heartbeat_file: String,
    pub kill_flatten_script: String,
}

/// Verdict from WS health assessment.
#[derive(Debug, Clone, PartialEq, Eq)]
pub enum HealthVerdict {
    Healthy,
    Degraded { reason: String },
    Critical { reason: String },
}

/// A verdict as plain text: on the health of the streams, or of the status page.
pub enum VerdictView {
    Healthy,
    Degraded(Seq<char>),
    Critical(Seq<char>),
}

impl View for HealthVerdict {
    type V = VerdictView;

    open spec fn view(&self) -> VerdictView {
        match self {
            HealthVerdict::Healthy => VerdictView::Healthy,
            HealthVerdict::Degraded { reason } => VerdictView::Degraded(reason@),
            HealthVerdict::Critical { reason } => VerdictView::Critical(reason@),
        }
    }
}

/// When a message was heard, in nanoseconds on a tracker's clock.
#[derive(Clone, Copy)]
struct HeardAt {
    nanos: i128,
}

impl HeardAt {
    #[verifier::type_invariant]
    spec fn in_range(self) -> bool {
        self.nanos >= EARLIEST_MESSAGE
    }

    fn new(nanos: i128) -> (r: HeardAt)
        requires
            nanos >= EARLIEST_MESSAGE,
        ensures
            r.nanos == nanos,
    {
        HeardAt { nanos }
    }

    /// Whole seconds of silence since then.
    fn silent_secs(self, now: u64) -> (r: u64)
        ensures
            r == secs_between(self.nanos as int, now as int),
    {
        proof {
            use_type_invariant(&self);
        }
        let now: i128 = now as i128;
        if now <= self.nanos {
            0
        } else {
            ((now - self.nanos) / 1_000_000_000) as u64
        }
    }
}

/// What is known of one stream. Times are nanoseconds on the tracker's clock, below zero for a
/// message that is older than the tracker.
struct StreamHealth {
    connected: bool,
    last_message_at: Option<HeardAt>,
    disconnect_times: VecDeque<u64>,
    consecutive_disconnects: u32,
    last_connect_at: Option<u64>,
}

pub struct StreamView {
    pub connected: bool,
    pub last_message_at: Option<int>,
    pub disconnect_times: Seq<int>,
    pub consecutive_disconnects: int,
    pub last_connect_at: Option<int>,
}

pub open spec fn opt_time(t: Option<u64>) -> Option<int> {
    match t {
        Some(t) => Some(t as int),
        None => None,
    }
}

pub open spec fn times(s: Seq<u64>) -> Seq<int> {
    s.map_values(|t: u64| t as int)
}

/// Whole seconds from `since` to `now`, none where `now` comes first.
pub open spec fn secs_between(since: int, now: int) -> int {
    if now <= since {
        0
    } else {
        (now - since) / 1_000_000_000
    }
}

pub fn elapsed_secs(since: u64, now: u64) -> (r: u64)
    ensures
        r == secs_between(since as int, now as int),
{
    if now <= since {
        0
    } else {
        (now - since) / 1_000_000_000
    }
}

/// Without the times at the front that are older than `window` seconds at `now`.
pub open spec fn pruned(s: Seq<int>, window: int, now: int) -> Seq<int>
    decreases s.len(),
{
    if s.len() > 0 && now - s[0] > window * 1_000_000_000 {
        pruned(s.drop_first(), window, now)
    } else {
        s
    }
}

impl StreamView {
    pub open spec fn fresh() -> StreamView {
        StreamView {
            connected: false,
            last_message_at: None,
            disconnect_times: Seq::empty(),
            consecutive_disconnects: 0,
            last_connect_at: None,
        }
    }

    /// After a message: the stream is connected, since `now` if it was not before.
    pub open spec fn message(self, now: int) -> StreamView {
        StreamView {
            connected: true,
            last_message_at: Some(now),
            last_connect_at: if self.connected {
                self.last_connect_at
            } else {
                Some(now)
            },
            ..self
        }
    }

    /// After the stream connected anew.
    pub open spec fn connect(self, now: int) -> StreamView {
        StreamView {
            connected: true,
            last_message_at: Some(now),
            last_connect_at: Some(now),
            ..self
        }
    }

    /// After a disconnect. One that follows a stable connection starts the count anew.
    pub open spec fn disconnect(self, now: int, stable_secs: int) -> StreamView {
        let was_stable = self.last_connect_at matches Some(t) && secs_between(t, now)
            >= stable_secs;
        StreamView {
            connected: false,
            disconnect_times: self.disconnect_times.push(now),
            consecutive_disconnects: if was_stable {
                1
            } else {
                self.consecutive_disconnects + 1
            },
            ..self
        }
    }

    pub open spec fn prune(self, window: int, now: int) -> StreamView {
        StreamView { disconnect_times: pruned(self.disconnect_times, window, now), ..self }
    }
}

impl View for StreamHealth {
    type V = StreamView;

    closed spec fn view(&self) -> StreamView {
        StreamView {
            connected: self.connected,
            last_message_at: match self.last_message_at {
                Some(t) => Some(t.nanos as int),
                None => None,
            },
            disconnect_times: times(self.disconnect_times@),
            consecutive_disconnects: self.consecutive_disconnects as int,
            last_connect_at: opt_time(self.last_connect_at),
        }
    }
}

impl StreamHealth {
    fn new() -> (r: StreamHealth)
        ensures
            r@ == StreamView::fresh(),
    {
        let r = StreamHealth {
            connected: false,
            last_message_at: None,
            disconnect_times: VecDeque::new(),
            consecutive_disconnects: 0,
            last_connect_at: None,
        };
        assert(r@.disconnect_times =~= Seq::empty());
        r
    }

    fn message(&mut self, now: u64)
        ensures
            final(self)@ == old(self)@.message(now as int),
    {
        self.last_message_at = Some(HeardAt::new(now as i128));
        if !self.connected {
            self.connected = true;
            self.last_connect_at = Some(now);
        }
    }

    fn connect(&mut self, now: u64)
        ensures
            final(self)@ == old(self)@.connect(now as int),
    {
        self.connected = true;
        self.last_connect_at = Some(now);
        self.last_message_at = Some(HeardAt::new(now as i128));
    }

    fn disconnect(&mut self, now: u64, stable_secs: u64)
        requires
            old(self)@.consecutive_disconnects < u32::MAX,
        ensures
            final(self)@ == old(self)@.disconnect(now as int, stable_secs as int),
    {
        let ghost before = self@.disconnect_times;
        self.connected = false;
        self.disconnect_times.push_back(now);
        assert(self@.disconnect_times =~= before.push(now as int));
        let was_stable = match self.last_connect_at {
            Some(t) => elapsed_secs(t, now) >= stable_secs,
            None => false,
        };
        if was_stable {
            self.consecutive_disconnects = 1;
        } else {
            self.consecutive_disconnects = self.consecutive_disconnects + 1;
        }
    }

    fn prune(&mut self, window_secs: u64, now: u64)
        ensures
            final(self)@ == old(self)@.prune(window_secs as int, now as int),
    {
        let ghost goal = pruned(self@.disconnect_times, window_secs as int, now as int);
        let cutoff: u128 = window_secs as u128 * 1_000_000_000;
        let mut going = true;
        while going
            invariant
                cutoff == window_secs * 1_000_000_000,
                goal == pruned(self@.disconnect_times, window_secs as int, now as int),
                !going ==> self@.disconnect_times == goal,
                self@ == (StreamView {
                    disconnect_times: self@.disconnect_times,
                    ..old(self)@
                }),
            decreases
                    self.disconnect_times@.len() + (if going {
                        1int
                    } else {
                        0
                    }),
        {
            let ghost before = self@.disconnect_times;
            if self.disconnect_times.len() > 0 {
                let front: u64 = self.disconnect_times[0];
                assert(before[0] == front);
                if now > front && (now - front) as u128 > cutoff {
                    let _ = self.disconnect_times.pop_front();
                    assert(self@.disconnect_times =~= before.drop_first());
                } else {
                    going = false;
                }
            } else {
                going = false;
            }
        }
    }
}

/// Tracks WebSocket connection health for both book and user streams.
///
/// Fed through the `report_*` methods, assessed periodically through `assess()`.
pub struct WsHealthTracker {
    epoch: Instant,
    book: StreamHealth,
    user: StreamHealth,
    /// Minimum connection duration (seconds) to count as "stable" and reset consecutive counter.
    stable_connection_secs: u64,
}

pub struct TrackerView {
    pub book: StreamView,
    pub user: StreamView,
    pub stable_secs: int,
}

impl View for WsHealthTracker {
    type V = TrackerView;

    closed spec fn view(&self) -> TrackerView {
        TrackerView {
            book: self.book@,
            user: self.user@,
            stable_secs: self.stable_connection_secs as int,
        }
    }
}

/// The timestamp of the last raw message of the book stream, in nanoseconds since 1970.
#[derive(Clone, Copy, Debug)]
pub struct BookWsStatsSnapshot {
    pub last_raw_message_at: Option<i64>,
}

impl TrackerView {
    /// After a raw message of the book stream that was `age_secs` seconds old at `now`: the
    /// stream counts as heard at that time, if that is later than what was known.
    pub open spec fn raw_activity(self, age_secs: int, now: int) -> TrackerView {
        let heard_at = now - age_secs * 1_000_000_000;
        if age_secs < 0 || (self.book.last_message_at matches Some(t) && t >= heard_at) {
            self
        } else {
            TrackerView {
                book: StreamView { last_message_at: Some(heard_at), ..self.book },
                ..self
            }
        }
    }

    pub open spec fn prune(self, window: int, now: int) -> TrackerView {
        TrackerView {
            book: self.book.prune(window, now),
            user: self.user.prune(window, now),
            ..self
        }
    }

    pub open spec fn reconnects(self) -> int {
        self.book.disconnect_times.len() as int + self.user.disconnect_times.len() as int
    }

    /// Seconds for which the book stream has been silent.
    pub open spec fn book_silence(self, now: int) -> Option<int> {
        match self.book.last_message_at {
            Some(t) => Some(secs_between(t, now)),
            None => None,
        }
    }

    pub open spec fn user_silence(self, now: int) -> Option<int> {
        match self.user.last_message_at {
            Some(t) => Some(secs_between(t, now)),
            None => None,
        }
    }

    pub open spec fn worst_consecutive(self) -> int {
        if self.book.consecutive_disconnects >= self.user.consecutive_disconnects {
            self.book.consecutive_disconnects
        } else {
            self.user.consecutive_disconnects
        }
    }

    /// The verdict at `now`, once disconnects outside the window are gone.
    pub open spec fn verdict(self, config: WatchdogConfig, now: int) -> VerdictView {
        let reconnects = self.reconnects();
        if self.book_silence(now) matches Some(s) && s >= config.max_book_ws_silence_secs {
            VerdictView::Critical(
                "Book WS silent for "@ + count_chars(self.book_silence(now)->0 as nat)
                    + "s (threshold: "@ + count_chars(config.max_book_ws_silence_secs as nat)
                    + "s)"@,
            )
        } else if self.user_silence(now) matches Some(s) && s >= config.max_user_ws_silence_secs {
            VerdictView::Critical(
                "User WS silent for "@ + count_chars(self.user_silence(now)->0 as nat)
                    + "s (threshold: "@ + count_chars(config.max_user_ws_silence_secs as nat)
                    + "s)"@,
            )
        } else if reconnects >= config.max_reconnects_in_window {
            VerdictView::Critical(
                count_chars(reconnects as nat) + " reconnects in "@ + count_chars(
                    config.reconnect_window_secs as nat,
                ) + "s window (threshold: "@ + count_chars(
                    config.max_reconnects_in_window as nat,
                ) + ")"@,
            )
        } else if self.worst_consecutive() >= config.max_consecutive_disconnects {
            VerdictView::Critical(
                count_chars(self.worst_consecutive() as nat)
                    + " consecutive short-lived disconnects (threshold: "@ + count_chars(
                    config.max_consecutive_disconnects as nat,
                ) + ")"@,
            )
        } else if reconnects > 0 {
            VerdictView::Degraded(
                count_chars(reconnects as nat) + " reconnects in "@ + count_chars(
                    config.reconnect_window_secs as nat,
                ) + "s window"@,
            )
        } else if !self.book.connected && self.book.last_message_at is Some {
            VerdictView::Degraded("Book WS disconnected, awaiting reconnect"@)
        } else if !self.user.connected && self.user.last_message_at is Some {
            VerdictView::Degraded("User WS disconnected, awaiting reconnect"@)
        } else {
            VerdictView::Healthy
        }
    }

}

impl WsHealthTracker {
    pub fn new() -> (r: WsHealthTracker)
        ensures
            r@ == (TrackerView {
                book: StreamView::fresh(),
                user: StreamView::fresh(),
                stable_secs: 60,
            }),
    {
        WsHealthTracker {
            epoch: clock_now(),
            book: StreamHealth::new(),
            user: StreamHealth::new(),
            stable_connection_secs: 60,
        }
    }

    /// Called when a book WS message is received (Snapshot or Delta).
    pub fn report_book_message(&mut self)
        ensures
            exists|now: u64| #[trigger]
                at_time(now) && final(self)@ == (TrackerView {
                    book: old(self)@.book.message(now as int),
                    ..old(self)@
                }),
    {
        let now: u64 = nanos_since(&self.epoch);
        assert(at_time(now));
        self.report_book_message_at(now);
    }

    pub fn report_book_message_at(&mut self, now: u64)
        ensures
            final(self)@ == (TrackerView {
                book: old(self)@.book.message(now as int),
                ..old(self)@
            }),
    {
        self.book.message(now);
    }

    /// Called when book WS disconnects.
    pub fn report_book_disconnect(&mut self)
        requires
            old(self)@.book.consecutive_disconnects < u32::MAX,
        ensures
            exists|now: u64| #[trigger]
                at_time(now) && final(self)@ == (TrackerView {
                    book: old(self)@.book.disconnect(now as int, old(self)@.stable_secs),
                    ..old(self)@
                }),
    {
        let now: u64 = nanos_since(&self.epoch);
        assert(at_time(now));
        self.report_book_disconnect_at(now);
    }

    pub fn report_book_disconnect_at(&mut self, now: u64)
        requires
            old(self)@.book.consecutive_disconnects < u32::MAX,
        ensures
            final(self)@ == (TrackerView {
                book: old(self)@.book.disconnect(now as int, old(self)@.stable_secs),
                ..old(self)@
            }),
    {
        self.book.disconnect(now, self.stable_connection_secs);
    }

    /// Called when a user WS event is received (Connected, Trade, Order).
    pub fn report_user_message(&mut self)
        ensures
            exists|now: u64| #[trigger]
                at_time(now) && final(self)@ == (TrackerView {
                    user: old(self)@.user.message(now as int),
                    ..old(self)@
                }),
    {
        let now: u64 = nanos_since(&self.epoch);
        assert(at_time(now));
        self.report_user_message_at(now);
    }

    pub fn report_user_message_at(&mut self, now: u64)
        ensures
            final(self)@ == (TrackerView {
                user: old(self)@.user.message(now as int),
                ..old(self)@
            }),
    {
        self.user.message(now);
    }

    /// Called when a raw authenticated user WS frame proves the socket is alive
    /// without carrying a Trade/Order business event.
    pub fn report_user_raw_activity(&mut self)
        ensures
            exists|now: u64| #[trigger]
                at_time(now) && final(self)@ == (TrackerView {
                    user: old(self)@.user.message(now as int),
                    ..old(self)@
                }),
    {
        self.report_user_message();
    }

    /// Called when user WS connects.
    pub fn report_user_connected(&mut self)
        ensures
            exists|now: u64| #[trigger]
                at_time(now) && final(self)@ == (TrackerView {
                    user: old(self)@.user.connect(now as int),
                    ..old(self)@
                }),
    {
        let now: u64 = nanos_since(&self.epoch);
        assert(at_time(now));
        self.report_user_connected_at(now);
    }

    pub fn report_user_connected_at(&mut self, now: u64)
        ensures
            final(self)@ == (TrackerView {
                user: old(self)@.user.connect(now as int),
                ..old(self)@
            }),
    {
        self.user.connect(now);
    }

    /// Called when user WS disconnects.
    pub fn report_user_disconnect(&mut self)
        requires
            old(self)@.user.consecutive_disconnects < u32::MAX,
        ensures
            exists|now: u64| #[trigger]
                at_time(now) && final(self)@ == (TrackerView {
                    user: old(self)@.user.disconnect(now as int, old(self)@.stable_secs),
                    ..old(self)@
                }),
    {
        let now: u64 = nanos_since(&self.epoch);
        assert(at_time(now));
        self.report_user_disconnect_at(now);
    }

    pub fn report_user_disconnect_at(&mut self, now: u64)
        requires
            old(self)@.user.consecutive_disconnects < u32::MAX,
        ensures
            final(self)@ == (TrackerView {
                user: old(self)@.user.disconnect(now as int, old(self)@.stable_secs),
                ..old(self)@
            }),
    {
        self.user.disconnect(now, self.stable_connection_secs);
    }

    /// Update the book WS silence timer from raw WS activity stats.
    ///
    /// The silence check in `assess()` only sees parsed Snapshot/Delta events
    /// via `report_book_message()`. This method feeds the raw-message timestamp
    /// so that heartbeats, subscription acks, and other
    /// non-book messages also count as "the connection is alive".
    pub fn update_book_ws_raw_activity(&mut self, stats: &BookWsStatsSnapshot)
        ensures
            stats.last_raw_message_at is None ==> final(self)@ == old(self)@,
            stats.last_raw_message_at is Some ==> exists|now: u64, utc: i64| #[trigger]
                at_time(now) && #[trigger] at_utc(utc) && final(self)@ == old(self)@.raw_activity(
                    message_age_secs(stats.last_raw_message_at->0 as int, utc as int),
                    now as int,
                ),
    {
        match stats.last_raw_message_at {
            Some(last_raw) => {
                let utc: i64 = nanos_of_time(utc_now());
                let now: u64 = nanos_since(&self.epoch);
                assert(at_time(now) && at_utc(utc));
                self.update_book_ws_raw_activity_at(last_raw, utc, now);
            },
            None => {},
        }
    }

    /// As [`Self::update_book_ws_raw_activity`], for a message of the time `last_raw`, at the time
    /// `utc` of the wall clock and `now` of the tracker's clock.
    pub fn update_book_ws_raw_activity_at(&mut self, last_raw: i64, utc: i64, now: u64)
        ensures
            final(self)@ == old(self)@.raw_activity(
                message_age_secs(last_raw as int, utc as int),
                now as int,
            ),
    {
        let age: i128 = utc as i128 - last_raw as i128;
        if age > -(1_000_000_000i128) {
            let secs: i128 = if age < 0 {
                0
            } else {
                age / 1_000_000_000
            };
            let heard_at: i128 = now as i128 - secs * 1_000_000_000;
            let known = match self.book.last_message_at {
                Some(existing) => existing.nanos >= heard_at,
                None => false,
            };
            if !known {
                self.book.last_message_at = Some(HeardAt::new(heard_at));
            }
        }
    }

    /// Whether the book stream and the user stream are connected.
    pub fn connection_state(&self) -> (r: (bool, bool))
        ensures
            r == (self@.book.connected, self@.user.connected),
    {
        (self.book.connected, self.user.connected)
    }

    /// Prune disconnect timestamps outside the rolling window.
    pub fn prune_window(&mut self, window_secs: u64, now: u64)
        ensures
            final(self)@ == old(self)@.prune(window_secs as int, now as int),
    {
        self.book.prune(window_secs, now);
        self.user.prune(window_secs, now);
    }

    /// Count reconnects in the rolling window for both WS streams.
    pub fn reconnects_in_window(&self) -> (r: u128)
        ensures
            r == self@.reconnects(),
    {
        self.book.disconnect_times.len() as u128 + self.user.disconnect_times.len() as u128
    }

    /// Assess overall WS health against configured thresholds.
    pub fn assess(&mut self, config: &WatchdogConfig) -> (r: HealthVerdict)
        ensures
            exists|then: u64, now: u64| #[trigger]
                at_time(then) && #[trigger] at_time(now) && final(self)@ == old(self)@.prune(
                    config.reconnect_window_secs as int,
                    then as int,
                ) && r@ == final(self)@.verdict(*config, now as int),
    {
        let then: u64 = nanos_since(&self.epoch);
        self.prune_window(config.reconnect_window_secs, then);
        let now: u64 = nanos_since(&self.epoch);
        assert(at_time(then) && at_time(now));
        self.assess_at(config, now)
    }

    /// The verdict at `now`, once disconnects outside the window are pruned.
    pub fn assess_at(&self, config: &WatchdogConfig, now: u64) -> (r: HealthVerdict)
        ensures
            r@ == self@.verdict(*config, now as int),
    {
        match self.book.last_message_at {
            Some(last) => {
                let silence: u64 = last.silent_secs(now);
                if silence >= config.max_book_ws_silence_secs {
                    let mut reason = "Book WS silent for ".to_owned();
                    reason.append(count_text(silence).as_str());
                    reason.append("s (threshold: ");
                    reason.append(count_text(config.max_book_ws_silence_secs).as_str());
                    reason.append("s)");
                    return HealthVerdict::Critical { reason };
                }
            },
            None => {},
        }
        match self.user.last_message_at {
            Some(last) => {
                let silence: u64 = last.silent_secs(now);
                if silence >= config.max_user_ws_silence_secs {
                    let mut reason = "User WS silent for ".to_owned();
                    reason.append(count_text(silence).as_str());
                    reason.append("s (threshold: ");
                    reason.append(count_text(config.max_user_ws_silence_secs).as_str());
                    reason.append("s)");
                    return HealthVerdict::Critical { reason };
                }
            },
            None => {},
        }
        let total_reconnects: u128 = self.reconnects_in_window();
        if total_reconnects >= config.max_reconnects_in_window as u128 {
            let mut reason = wide_count_text(total_reconnects);
            reason.append(" reconnects in ");
            reason.append(count_text(config.reconnect_window_secs).as_str());
            reason.append("s window (threshold: ");
            reason.append(count_text(config.max_reconnects_in_window as u64).as_str());
            reason.append(")");
            return HealthVerdict::Critical { reason };
        }
        let max_consecutive: u32 = if self.book.consecutive_disconnects
            >= self.user.consecutive_disconnects {
            self.book.consecutive_disconnects
        } else {
            self.user.consecutive_disconnects
        };
        if max_consecutive >= config.max_consecutive_disconnects {
            let mut reason = count_text(max_consecutive as u64);
            reason.append(" consecutive short-lived disconnects (threshold: ");
            reason.append(count_text(config.max_consecutive_disconnects as u64).as_str());
            reason.append(")");
            return HealthVerdict::Critical { reason };
        }
        if total_reconnects > 0 {
            let mut reason = wide_count_text(total_reconnects);
            reason.append(" reconnects in ");
            reason.append(count_text(config.reconnect_window_secs).as_str());
            reason.append("s window");
            return HealthVerdict::Degraded { reason };
        }
        if !self.book.connected && self.book.last_message_at.is_some() {
            return HealthVerdict::Degraded {
                reason: "Book WS disconnected, awaiting reconnect".to_owned(),
            };
        }
        if !self.user.connected && self.user.last_message_at.is_some() {
            return HealthVerdict::Degraded {
                reason: "User WS disconnected, awaiting reconnect".to_owned(),
            };
        }
        HealthVerdict::Healthy
    }
}

/// `now` is a reading of a tracker's clock. It says nothing of the reading: it is true of every one,
/// and stands where a quantifier over readings needs a term to be triggered by.
pub open spec fn at_time(now: u64) -> bool {
    true
}

/// `utc` is a reading of the wall clock. Like `at_time` it is true of every one, and is there for
/// quantifiers to be triggered by.
pub open spec fn at_utc(utc: i64) -> bool {
    true
}

/// Age of a message in whole seconds, toward zero; below zero for one from the future.
pub open spec fn message_age_secs(last_raw: int, utc: int) -> int {
    if utc - last_raw <= -1_000_000_000 {
        -((last_raw - utc) / 1_000_000_000)
    } else if utc < last_raw {
        0
    } else {
        (utc - last_raw) / 1_000_000_000
    }
}

/// Pruning leaves nothing exactly where every time is older than the window.
proof fn lemma_all_pruned(s: Seq<int>, window: int, now: int)
    ensures
        pruned(s, window, now).len() == 0 <==> forall|i: int|
            0 <= i < s.len() ==> now - (#[trigger] s[i]) > window * 1_000_000_000,
    decreases s.len(),
{
    if s.len() > 0 && now - s[0] > window * 1_000_000_000 {
        let rest = s.drop_first();
        lemma_all_pruned(rest, window, now);
        if pruned(s, window, now).len() == 0 {
            assert forall|i: int| 0 <= i < s.len() implies now - (#[trigger] s[i]) > window
                * 1_000_000_000 by {
                if i > 0 {
                    assert(s[i] == rest[i - 1]);
                }
            }
        } else if forall|i: int|
            0 <= i < s.len() ==> now - (#[trigger] s[i]) > window * 1_000_000_000 {
            assert forall|i: int| 0 <= i < rest.len() implies now - (#[trigger] rest[i]) > window
                * 1_000_000_000 by {
                assert(rest[i] == s[i + 1]);
            }
        }
    }
}

/// Nothing is wrong with a stream: it has not been heard yet, or it is connected and has not been
/// silent for `max_silence` seconds.
pub open spec fn is_well(stream: StreamView, max_silence: int, now: int) -> bool {
    stream.last_message_at matches Some(t) ==> stream.connected && secs_between(t, now)
        < max_silence
}

/// The streams are found healthy exactly where no disconnect lies within the window, neither count
/// of disconnects reaches its threshold, and nothing is wrong with either stream.
pub proof fn law_healthy_means_nothing_is_wrong(
    v: TrackerView,
    config: WatchdogConfig,
    then: int,
    now: int,
)
    ensures
        ({
            let window = config.reconnect_window_secs as int;
            &&& v.prune(window, then).verdict(config, now) == VerdictView::Healthy <==> {
                &&& forall|i: int|
                    0 <= i < v.book.disconnect_times.len() ==> then
                        - #[trigger] v.book.disconnect_times[i] > window * 1_000_000_000
                &&& forall|i: int|
                    0 <= i < v.user.disconnect_times.len() ==> then
                        - #[trigger] v.user.disconnect_times[i] > window * 1_000_000_000
                &&& config.max_reconnects_in_window > 0
                &&& v.worst_consecutive() < config.max_consecutive_disconnects
                &&& is_well(v.book, config.max_book_ws_silence_secs as int, now)
                &&& is_well(v.user, config.max_user_ws_silence_secs as int, now)
            }
            &&& v.prune(window, then).book.connected == v.book.connected
            &&& v.prune(window, then).user.connected == v.user.connected
        }),
{
    lemma_all_pruned(v.book.disconnect_times, config.reconnect_window_secs as int, then);
    lemma_all_pruned(v.user.disconnect_times, config.reconnect_window_secs as int, then);
}

/// What is left after pruning is within the window, if the disconnects were recorded in turn.
pub proof fn law_pruned_is_within_window(s: Seq<int>, window: int, now: int, i: int)
    requires
        forall|j: int, k: int| 0 <= j <= k < s.len() ==> s[j] <= s[k],
        0 <= i < pruned(s, window, now).len(),
    ensures
        now - pruned(s, window, now)[i] <= window * 1_000_000_000,
    decreases s.len(),
{
    if s.len() > 0 && now - s[0] > window * 1_000_000_000 {
        let rest = s.drop_first();
        assert forall|j: int, k: int| 0 <= j <= k < rest.len() implies rest[j] <= rest[k] by {
            assert(s[j + 1] <= s[k + 1]);
        }
        law_pruned_is_within_window(rest, window, now, i);
    } else {
        assert(s[0] <= s[i]);
    }
}

/// A tracker that has heard nothing finds nothing wrong, unless a threshold is zero.
pub proof fn law_fresh_tracker_is_healthy(config: WatchdogConfig, now: int)
    requires
        config.max_reconnects_in_window > 0,
        config.max_consecutive_disconnects > 0,
    ensures
        (TrackerView { book: StreamView::fresh(), user: StreamView::fresh(), stable_secs: 60 }).verdict(
            config,
            now,
        ) == VerdictView::Healthy,
{
}

/// A message ends the silence: at the time of the message the book stream has been silent for no
/// time at all.
pub proof fn law_message_ends_silence(v: TrackerView, now: int)
    ensures
        (TrackerView { book: v.book.message(now), ..v }).book_silence(now) == Some(0int),
{
}

/// Raw activity only ever moves the time at which the stream was last heard forward, up to the
/// time of the message; it neither connects a stream nor touches anything else.
pub proof fn law_raw_activity_never_ages(v: TrackerView, age_secs: int, now: int)
    ensures
        ({
            let after = v.raw_activity(age_secs, now);
            let heard_at = now - age_secs * 1_000_000_000;
            &&& after == (TrackerView {
                book: StreamView { last_message_at: after.book.last_message_at, ..v.book },
                ..v
            })
            &&& age_secs < 0 ==> after == v
            &&& age_secs >= 0 ==> after.book.last_message_at == Some(
                match v.book.last_message_at {
                    Some(t) => if t >= heard_at {
                        t
                    } else {
                        heard_at
                    },
                    None => heard_at,
                },
            )
        }),
{
}

/// Raw activity that is itself older than the silence threshold does not end a silence.
pub proof fn law_stale_activity_ends_no_silence(
    v: TrackerView,
    config: WatchdogConfig,
    age_secs: int,
    now: int,
)
    requires
        v.book_silence(now) matches Some(s) && s >= config.max_book_ws_silence_secs,
        age_secs >= config.max_book_ws_silence_secs,
    ensures
        v.raw_activity(age_secs, now).verdict(config, now) is Critical,
{
}

} // verus!
