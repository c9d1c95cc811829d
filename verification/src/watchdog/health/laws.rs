//! When streams count as broken, and what each event of a stream changes.

use crate::watchdog::health::{
    message_age_secs, pruned, secs_between, StreamView, TrackerView, VerdictView, WatchdogConfig,
};
use vstd::prelude::*;

verus! {

/// A stream was heard, and not since so many seconds.
pub open spec fn silent_for(s: StreamView, secs: int, now: int) -> bool {
    s.last_message_at matches Some(t) && (secs == 0 || now - t >= secs * 1_000_000_000)
}

/// Streams are critical exactly where one is silent for as long as is allowed, or both together
/// disconnected as often, or one as often in a row. Short of that they are degraded where there was any
/// disconnect at all, or one that was heard is not connected; else they are healthy.
pub proof fn law_thresholds_decide_on_health(v: TrackerView, config: WatchdogConfig, now: int)
    ensures
        ({
            let broken = silent_for(v.book, config.max_book_ws_silence_secs as int, now)
                || silent_for(v.user, config.max_user_ws_silence_secs as int, now)
                || v.book.disconnect_times.len() + v.user.disconnect_times.len()
                >= config.max_reconnects_in_window || v.book.consecutive_disconnects
                >= config.max_consecutive_disconnects || v.user.consecutive_disconnects
                >= config.max_consecutive_disconnects;
            let shaken = v.book.disconnect_times.len() > 0 || v.user.disconnect_times.len() > 0
                || (v.book.last_message_at is Some && !v.book.connected) || (
            v.user.last_message_at is Some && !v.user.connected);
            &&& v.verdict(config, now) is Critical <==> broken
            &&& v.verdict(config, now) is Degraded <==> !broken && shaken
            &&& v.verdict(config, now) is Healthy <==> !broken && !shaken
        }),
{
    if let Some(t) = v.book.last_message_at {
        lemma_seconds(t, now, config.max_book_ws_silence_secs as int);
    }
    if let Some(t) = v.user.last_message_at {
        lemma_seconds(t, now, config.max_user_ws_silence_secs as int);
    }
}

proof fn lemma_seconds(since: int, now: int, secs: int)
    requires
        secs >= 0,
    ensures
        secs_between(since, now) >= secs <==> secs == 0 || now - since >= secs * 1_000_000_000,
{
}

/// Whole seconds are counted from then till now, and none where now comes first.
pub proof fn law_seconds_are_whole(since: int, now: int)
    ensures
        ({
            let secs = secs_between(since, now);
            &&& now >= since ==> secs * 1_000_000_000 <= now - since < (secs + 1) * 1_000_000_000
            &&& now <= since ==> secs == 0
        }),
{
}

/// A disconnect is recorded at its time. It starts the count of those in a row anew where the stream
/// had been connected for the stable time, and else is one more. The stream is not connected then;
/// when it was last heard stays.
pub proof fn law_disconnects_are_counted(s: StreamView, now: int, stable_secs: nat)
    ensures
        ({
            let after = s.disconnect(now, stable_secs as int);
            let lasted = s.last_connect_at is Some && (stable_secs == 0 || now
                - s.last_connect_at->0 >= stable_secs * 1_000_000_000);
            &&& !after.connected
            &&& after.disconnect_times == s.disconnect_times.push(now)
            &&& lasted ==> after.consecutive_disconnects == 1
            &&& !lasted ==> after.consecutive_disconnects == s.consecutive_disconnects + 1
            &&& after.last_message_at == s.last_message_at
            &&& after.last_connect_at == s.last_connect_at
        }),
{
    if let Some(t) = s.last_connect_at {
        lemma_seconds(t, now, stable_secs as int);
    }
}

/// A message or a connect is heard at its time and finds or makes the stream connected; a message on a
/// connected stream does not make its connection younger. Neither forgets a disconnect.
pub proof fn law_messages_connect(s: StreamView, now: int)
    ensures
        ({
            let m = s.message(now);
            let c = s.connect(now);
            &&& m.connected && c.connected
            &&& m.last_message_at == Some(now) && c.last_message_at == Some(now)
            &&& s.connected ==> m.last_connect_at == s.last_connect_at
            &&& !s.connected ==> m.last_connect_at == Some(now)
            &&& c.last_connect_at == Some(now)
            &&& m.disconnect_times == s.disconnect_times && c.disconnect_times
                == s.disconnect_times
            &&& m.consecutive_disconnects == s.consecutive_disconnects
                && c.consecutive_disconnects == s.consecutive_disconnects
        }),
{
}

/// Pruning drops times from the front alone, each older than the window, and stops at the first that
/// is not.
pub proof fn law_pruning_drops_the_oldest(s: Seq<int>, window: int, now: int)
    ensures
        ({
            let left = pruned(s, window, now);
            let gone = s.len() - left.len();
            &&& 0 <= gone <= s.len()
            &&& left == s.skip(gone)
            &&& forall|i: int| 0 <= i < gone ==> now - #[trigger] s[i] > window * 1_000_000_000
            &&& left.len() > 0 ==> now - left[0] <= window * 1_000_000_000
        }),
    decreases s.len(),
{
    if s.len() > 0 && now - s[0] > window * 1_000_000_000 {
        let rest = s.drop_first();
        law_pruning_drops_the_oldest(rest, window, now);
        let gone = s.len() - pruned(s, window, now).len();
        assert(rest.skip(gone - 1) =~= s.skip(gone));
        assert forall|i: int| 0 <= i < gone implies now - #[trigger] s[i] > window
            * 1_000_000_000 by {
            if i > 0 {
                assert(s[i] == rest[i - 1]);
            }
        }
    } else {
        assert(s.skip(0) =~= s);
    }
}

/// The age of a message is in whole seconds toward zero, and below zero only for one of at least a
/// second ahead.
pub proof fn law_ages_are_whole_seconds(sent: int, seen: int)
    ensures
        ({
            let age = message_age_secs(sent, seen);
            &&& seen >= sent ==> age * 1_000_000_000 <= seen - sent < (age + 1) * 1_000_000_000
            &&& seen < sent ==> (age - 1) * 1_000_000_000 < seen - sent <= age * 1_000_000_000
        }),
{
}

} // verus!
