//! `FiringSink` — the small, injectable interface a recipe engine uses to
//! drive the "alarm is firing" platform surface: engage and tear down the
//! firing surface, pause audio, schedule and cancel the OS exact alarm, and
//! resolve the system-default sound.
//!
//! [`MockFiringSink`] records every call, for engine tests; the Android
//! surface plans its platform calls in `platform::android_firing`.
use vstd::prelude::*;

verus! {

/// Everything needed to fire an alarm.
#[derive(Debug, Clone, PartialEq)]
pub struct FireRequest {
    pub instance_id: String,
    /// Notification channel id for the firing foreground-service notification.
    pub channel_id: String,
    /// Notification channel display name (used on first creation only).
    pub channel_name: String,
    /// Notification title shown while firing.
    pub title: String,
    /// Notification body shown while firing.
    pub body: String,
    /// Importance level (Android `NotificationManager.IMPORTANCE_*`).
    pub importance: i32,
    /// Whether the channel should bypass Do Not Disturb.
    pub bypass_dnd: bool,
    /// Resolved playable sound URI. Empty or `"silent://"` means silent.
    pub sound_uri: String,
    /// AudioAttributes usage tag (e.g. `"alarm"`).
    pub audio_usage: String,
    /// AudioAttributes content type (e.g. `"sonification"`).
    pub audio_content_type: String,
    /// Whether the sound should loop.
    pub looping: bool,
    /// Whether to vibrate while firing (looping waveform), independently of
    /// the sound.
    pub vibrate: bool,
    /// Vibration waveform (alternating wait/vibrate ms) looped while firing.
    /// Empty falls back to the sink's default alarm pattern.
    pub vibration_pattern: Vec<i64>,
    /// Whether kiosk mode (lock task) should be engaged.
    pub kiosk_mode: bool,
    /// Kiosk: relaunch the activity when the user presses HOME.
    pub kiosk_block_home: bool,
    /// Kiosk: consume the BACK gesture.
    pub kiosk_block_back: bool,
    /// Kiosk: relaunch the activity when the user opens Recents.
    pub kiosk_block_recents: bool,
    /// Activity FQCN used for the full-screen-intent target and kiosk relaunch.
    pub activity_fqcn: Option<String>,
    /// Debounce for kiosk relaunch.
    pub kiosk_debounce_ms: u32,
    /// While kiosk-firing, hide the status bar.
    pub kiosk_hide_status_bar: bool,
    /// While kiosk-firing, hide the navigation bar.
    pub kiosk_hide_nav_bar: bool,
    /// Use a full-screen-intent notification.
    pub firing_full_screen: bool,
}

/// Configuration for scheduling an OS exact alarm.
#[derive(Debug, Clone, PartialEq)]
pub struct ExactAlarmRequest {
    pub alarm_id: String,
    pub target_unix_ms: i64,
    /// Opaque metadata handed back on dispatch.
    pub metadata_json: Option<String>,
}

/// A copy of the integers of `v`.
pub fn copy_i64s(v: &Vec<i64>) -> (r: Vec<i64>)
    ensures
        r@ == v@,
{
    let mut out: Vec<i64> = Vec::new();
    let mut i: usize = 0;
    while i < v.len()
        invariant
            i <= v.len(),
            out@ == v@.take(i as int),
        decreases v.len() - i,
    {
        out.push(v[i]);
        i = i + 1;
        assert(out@ =~= v@.take(i as int));
    }
    assert(v@.take(v.len() as int) =~= v@);
    out
}

/// A copy of an optional string.
pub fn copy_opt_string(s: &Option<String>) -> (r: Option<String>)
    ensures
        r == *s,
{
    match s {
        Some(x) => Some(x.clone()),
        None => None,
    }
}

/// `a` and `b` describe the same firing: equal fields, the waveform by its
/// integers.
pub open spec fn same_fire(a: FireRequest, b: FireRequest) -> bool {
    &&& a.instance_id == b.instance_id
    &&& a.channel_id == b.channel_id
    &&& a.channel_name == b.channel_name
    &&& a.title == b.title
    &&& a.body == b.body
    &&& a.importance == b.importance
    &&& a.bypass_dnd == b.bypass_dnd
    &&& a.sound_uri == b.sound_uri
    &&& a.audio_usage == b.audio_usage
    &&& a.audio_content_type == b.audio_content_type
    &&& a.looping == b.looping
    &&& a.vibrate == b.vibrate
    &&& a.vibration_pattern@ == b.vibration_pattern@
    &&& a.kiosk_mode == b.kiosk_mode
    &&& a.kiosk_block_home == b.kiosk_block_home
    &&& a.kiosk_block_back == b.kiosk_block_back
    &&& a.kiosk_block_recents == b.kiosk_block_recents
    &&& a.activity_fqcn == b.activity_fqcn
    &&& a.kiosk_debounce_ms == b.kiosk_debounce_ms
    &&& a.kiosk_hide_status_bar == b.kiosk_hide_status_bar
    &&& a.kiosk_hide_nav_bar == b.kiosk_hide_nav_bar
    &&& a.firing_full_screen == b.firing_full_screen
}

impl FireRequest {
    /// A field-by-field copy.
    pub fn duplicate(&self) -> (r: FireRequest)
        ensures
            same_fire(r, *self),
    {
        FireRequest {
            instance_id: self.instance_id.clone(),
            channel_id: self.channel_id.clone(),
            channel_name: self.channel_name.clone(),
            title: self.title.clone(),
            body: self.body.clone(),
            importance: self.importance,
            bypass_dnd: self.bypass_dnd,
            sound_uri: self.sound_uri.clone(),
            audio_usage: self.audio_usage.clone(),
            audio_content_type: self.audio_content_type.clone(),
            looping: self.looping,
            vibrate: self.vibrate,
            vibration_pattern: copy_i64s(&self.vibration_pattern),
            kiosk_mode: self.kiosk_mode,
            kiosk_block_home: self.kiosk_block_home,
            kiosk_block_back: self.kiosk_block_back,
            kiosk_block_recents: self.kiosk_block_recents,
            activity_fqcn: copy_opt_string(&self.activity_fqcn),
            kiosk_debounce_ms: self.kiosk_debounce_ms,
            kiosk_hide_status_bar: self.kiosk_hide_status_bar,
            kiosk_hide_nav_bar: self.kiosk_hide_nav_bar,
            firing_full_screen: self.firing_full_screen,
        }
    }
}

impl ExactAlarmRequest {
    /// A field-by-field copy.
    pub fn duplicate(&self) -> (r: ExactAlarmRequest)
        ensures
            r == *self,
    {
        ExactAlarmRequest {
            alarm_id: self.alarm_id.clone(),
            target_unix_ms: self.target_unix_ms,
            metadata_json: copy_opt_string(&self.metadata_json),
        }
    }
}

/// The minimal, mockable firing interface used by a recipe engine.
///
/// Implementors compose whatever firing sub-capabilities they support
/// (foreground service, audio, kiosk, full-screen intent, wake lock, exact
/// alarm). Nothing is promised here of an implementation; each implementor
/// states what its own methods do.
pub trait FiringSink {
    /// Engage the whole firing surface. Returns `true` if the critical
    /// surface (foreground service) engaged.
    fn start_firing(&mut self, req: &FireRequest) -> bool;

    /// Tear down everything `start_firing` engaged. Idempotent.
    fn stop_firing(&mut self, instance_id: &str);

    /// Pause firing audio without tearing down the other surfaces. Bring the
    /// alarm back with `start_firing`.
    fn pause_audio(&mut self);

    /// Schedule an OS exact alarm. Returns `true` on success.
    fn schedule_exact_alarm(&mut self, req: &ExactAlarmRequest) -> bool;

    /// Cancel a previously scheduled exact alarm. Idempotent.
    fn cancel_exact_alarm(&mut self, alarm_id: &str);

    /// The platform's system-default alarm sound URI.
    fn system_default_sound_uri(&self) -> String;
}

/// How one call on the mock changes its record of fires: `Some(req)` for a
/// `start_firing(req)` (the request is appended), `None` for any other call
/// (the record stays).
pub open spec fn mock_step(
    before: Seq<FireRequest>,
    call: Option<FireRequest>,
    after: Seq<FireRequest>,
) -> bool {
    match call {
        Some(r) => after.len() == before.len() + 1 && after.take(before.len() as int) == before
            && same_fire(after.last(), r),
        None => after == before,
    }
}

/// How many of `calls` start firing.
pub open spec fn start_count(calls: Seq<Option<FireRequest>>) -> nat
    decreases calls.len(),
{
    if calls.len() == 0 {
        0
    } else {
        start_count(calls.drop_last()) + if calls.last() is Some {
            1nat
        } else {
            0nat
        }
    }
}

/// The request of the last of `calls` that starts firing.
pub open spec fn last_start(calls: Seq<Option<FireRequest>>) -> Option<FireRequest>
    decreases calls.len(),
{
    if calls.len() == 0 {
        None
    } else if calls.last() is Some {
        calls.last()
    } else {
        last_start(calls.drop_last())
    }
}

/// Over any sequence of calls on a fresh mock, the record of fires holds
/// one entry per `start_firing`, and its last entry is the request of the
/// last `start_firing`; the other calls leave it alone. `fires[i]` is the
/// record after the first `i` calls.
pub proof fn law_mock_records_starts(calls: Seq<Option<FireRequest>>, fires: Seq<Seq<FireRequest>>)
    requires
        fires.len() == calls.len() + 1,
        fires[0].len() == 0,
        forall|i: int| 0 <= i < calls.len() ==> mock_step(#[trigger] fires[i], calls[i], fires[i + 1]),
    ensures
        fires.last().len() == start_count(calls),
        match last_start(calls) {
            None => fires.last().len() == 0,
            Some(r) => fires.last().len() > 0 && same_fire(fires.last().last(), r),
        },
    decreases calls.len(),
{
    if calls.len() > 0 {
        let n = calls.len() - 1;
        let pre = fires.drop_last();
        assert forall|i: int| 0 <= i < calls.drop_last().len() implies mock_step(
            #[trigger] pre[i],
            calls.drop_last()[i],
            pre[i + 1],
        ) by {
            assert(mock_step(fires[i], calls[i], fires[i + 1]));
        }
        law_mock_records_starts(calls.drop_last(), pre);
        assert(mock_step(fires[n], calls[n], fires[n + 1]));
        assert(pre.last() == fires[n]);
    }
}

/// In-memory recorder implementing [`FiringSink`] for tests.
#[derive(Debug, Default)]
pub struct MockFiringSink {
    pub fires: Vec<FireRequest>,
    pub stops: Vec<String>,
    pub schedules: Vec<ExactAlarmRequest>,
    pub cancels: Vec<String>,
    pub pauses: u32,
}

/// The URI the mock reports as the system-default alarm sound.
pub const MOCK_DEFAULT_ALARM_URI: &'static str = "content://settings/system/default-alarm";

impl MockFiringSink {
    /// A recorder that has recorded nothing.
    pub fn new() -> (r: Self)
        ensures
            r.fires@.len() == 0,
            r.stops@.len() == 0,
            r.schedules@.len() == 0,
            r.cancels@.len() == 0,
            r.pauses == 0,
    {
        MockFiringSink {
            fires: Vec::new(),
            stops: Vec::new(),
            schedules: Vec::new(),
            cancels: Vec::new(),
            pauses: 0,
        }
    }

    /// How many times firing was started.
    pub fn fire_count(&self) -> (r: usize)
        ensures
            r == self.fires@.len(),
    {
        self.fires.len()
    }

    /// The most recent firing request.
    pub fn last_fire(&self) -> (r: Option<FireRequest>)
        ensures
            self.fires@.len() == 0 ==> r is None,
            self.fires@.len() > 0 ==> (r matches Some(f) && same_fire(f, self.fires@.last())),
    {
        if self.fires.len() == 0 {
            None
        } else {
            Some(self.fires[self.fires.len() - 1].duplicate())
        }
    }

    /// The most recent exact-alarm request.
    pub fn last_schedule(&self) -> (r: Option<ExactAlarmRequest>)
        ensures
            self.schedules@.len() == 0 ==> r is None,
            self.schedules@.len() > 0 ==> r == Some(self.schedules@.last()),
    {
        if self.schedules.len() == 0 {
            None
        } else {
            Some(self.schedules[self.schedules.len() - 1].duplicate())
        }
    }

    /// How many exact alarms were cancelled.
    pub fn cancel_count(&self) -> (r: usize)
        ensures
            r == self.cancels@.len(),
    {
        self.cancels.len()
    }

    /// How many exact alarms were scheduled.
    pub fn schedule_count(&self) -> (r: usize)
        ensures
            r == self.schedules@.len(),
    {
        self.schedules.len()
    }
}

impl FiringSink for MockFiringSink {
    /// Records the request; always engages.
    fn start_firing(&mut self, req: &FireRequest) -> (r: bool)
        ensures
            r,
            mock_step(old(self).fires@, Some(*req), final(self).fires@),
            final(self).fires@.len() == old(self).fires@.len() + 1,
            final(self).fires@.take(old(self).fires@.len() as int) == old(self).fires@,
            same_fire(final(self).fires@.last(), *req),
            final(self).stops == old(self).stops,
            final(self).schedules == old(self).schedules,
            final(self).cancels == old(self).cancels,
            final(self).pauses == old(self).pauses,
    {
        let ghost before = self.fires@;
        self.fires.push(req.duplicate());
        assert(self.fires@.take(before.len() as int) =~= before);
        true
    }

    /// Records the instance id.
    fn stop_firing(&mut self, instance_id: &str)
        ensures
            final(self).stops@.len() == old(self).stops@.len() + 1,
            final(self).stops@.take(old(self).stops@.len() as int) == old(self).stops@,
            final(self).stops@.last()@ == instance_id@,
            final(self).fires == old(self).fires,
            final(self).schedules == old(self).schedules,
            final(self).cancels == old(self).cancels,
            final(self).pauses == old(self).pauses,
    {
        let ghost before = self.stops@;
        self.stops.push(instance_id.to_owned());
        assert(self.stops@.take(before.len() as int) =~= before);
    }

    /// Counts the pause (wrapping, as an atomic counter does).
    fn pause_audio(&mut self)
        ensures
            final(self).pauses == (if old(self).pauses == u32::MAX {
                0
            } else {
                old(self).pauses + 1
            }),
            final(self).fires == old(self).fires,
            final(self).stops == old(self).stops,
            final(self).schedules == old(self).schedules,
            final(self).cancels == old(self).cancels,
    {
        if self.pauses == u32::MAX {
            self.pauses = 0;
        } else {
            self.pauses = self.pauses + 1;
        }
    }

    /// Records the request; always succeeds.
    fn schedule_exact_alarm(&mut self, req: &ExactAlarmRequest) -> (r: bool)
        ensures
            r,
            final(self).schedules@ == old(self).schedules@.push(*req),
            final(self).fires == old(self).fires,
            final(self).stops == old(self).stops,
            final(self).cancels == old(self).cancels,
            final(self).pauses == old(self).pauses,
    {
        self.schedules.push(req.duplicate());
        true
    }

    /// Records the alarm id.
    fn cancel_exact_alarm(&mut self, alarm_id: &str)
        ensures
            final(self).cancels@.len() == old(self).cancels@.len() + 1,
            final(self).cancels@.take(old(self).cancels@.len() as int) == old(self).cancels@,
            final(self).cancels@.last()@ == alarm_id@,
            final(self).fires == old(self).fires,
            final(self).stops == old(self).stops,
            final(self).schedules == old(self).schedules,
            final(self).pauses == old(self).pauses,
    {
        let ghost before = self.cancels@;
        self.cancels.push(alarm_id.to_owned());
        assert(self.cancels@.take(before.len() as int) =~= before);
    }

    /// `content://settings/system/default-alarm`.
    fn system_default_sound_uri(&self) -> (r: String)
        ensures
            r@ == MOCK_DEFAULT_ALARM_URI@,
    {
        MOCK_DEFAULT_ALARM_URI.to_owned()
    }
}

} // verus!
