//! The Android firing surface, as the sequence of platform calls it makes.
//!
//! Engaging the surface runs, in the order the alarm pipeline requires:
//! foreground service → audio → vibration → kiosk → full-screen intent →
//! wake lock. Each surface belongs to its own firing sub-feature; a disabled
//! surface makes no call. What is decided here is which calls are made,
//! with which arguments and in which order; the calls themselves are made by
//! the embedding Android runtime, which reports back the foreground-service
//! result.
use vstd::prelude::*;

use crate::firing::{copy_i64s, copy_opt_string, ExactAlarmRequest, FireRequest};

verus! {

/// Which firing sub-features the build enables.
#[derive(Debug, Clone, Copy, PartialEq, Eq)]
pub struct FiringFeatures {
    pub foreground_service: bool,
    pub firing_audio: bool,
    pub firing_vibration: bool,
    pub kiosk: bool,
    pub full_screen_intent: bool,
    pub wake_lock: bool,
    pub exact_alarm: bool,
}

/// One platform call of the firing surface.
#[derive(Debug, Clone, PartialEq)]
pub enum FiringStep {
    StartForegroundService {
        channel_id: String,
        channel_name: String,
        title: String,
        body: String,
        importance: i32,
        bypass_dnd: bool,
        activity_fqcn: Option<String>,
        full_screen: bool,
    },
    PlaySound { uri: String, usage: String, content_type: String, looping: bool },
    StartVibration { pattern: Vec<i64> },
    EnableKioskMode {
        activity_fqcn: String,
        block_home: bool,
        block_back: bool,
        block_recents: bool,
        relaunch_debounce_ms: u32,
        hide_status_bar: bool,
        hide_nav_bar: bool,
    },
    ShowFullScreenIntent { activity_fqcn: String, dismiss_keyguard: bool },
    AcquireWakeLock { tag: String, timeout_ms: u64 },
    StopSound,
    StopVibration,
    ReleaseWakeLock { tag: String },
    DisableKioskMode,
    StopForegroundService,
    ScheduleExactAlarm { alarm_id: String, target_unix_ms: i64, metadata_json: Option<String> },
    CancelExactAlarm { alarm_id: String },
}

/// A firing step with its texts and waveform as plain values.
pub enum StepView {
    StartForegroundService {
        channel_id: Seq<char>,
        channel_name: Seq<char>,
        title: Seq<char>,
        body: Seq<char>,
        importance: i32,
        bypass_dnd: bool,
        activity_fqcn: Option<Seq<char>>,
        full_screen: bool,
    },
    PlaySound { uri: Seq<char>, usage: Seq<char>, content_type: Seq<char>, looping: bool },
    StartVibration { pattern: Seq<i64> },
    EnableKioskMode {
        activity_fqcn: Seq<char>,
        block_home: bool,
        block_back: bool,
        block_recents: bool,
        relaunch_debounce_ms: u32,
        hide_status_bar: bool,
        hide_nav_bar: bool,
    },
    ShowFullScreenIntent { activity_fqcn: Seq<char>, dismiss_keyguard: bool },
    AcquireWakeLock { tag: Seq<char>, timeout_ms: u64 },
    StopSound,
    StopVibration,
    ReleaseWakeLock { tag: Seq<char> },
    DisableKioskMode,
    StopForegroundService,
    ScheduleExactAlarm {
        alarm_id: Seq<char>,
        target_unix_ms: i64,
        metadata_json: Option<Seq<char>>,
    },
    CancelExactAlarm { alarm_id: Seq<char> },
}

pub open spec fn opt_view(o: Option<String>) -> Option<Seq<char>> {
    match o {
        Some(s) => Some(s@),
        None => None,
    }
}

impl View for FiringStep {
    type V = StepView;

    open spec fn view(&self) -> StepView {
        match self {
            FiringStep::StartForegroundService {
                channel_id,
                channel_name,
                title,
                body,
                importance,
                bypass_dnd,
                activity_fqcn,
                full_screen,
            } => StepView::StartForegroundService {
                channel_id: channel_id@,
                channel_name: channel_name@,
                title: title@,
                body: body@,
                importance: *importance,
                bypass_dnd: *bypass_dnd,
                activity_fqcn: opt_view(*activity_fqcn),
                full_screen: *full_screen,
            },
            FiringStep::PlaySound { uri, usage, content_type, looping } => StepView::PlaySound {
                uri: uri@,
                usage: usage@,
                content_type: content_type@,
                looping: *looping,
            },
            FiringStep::StartVibration { pattern } => StepView::StartVibration {
                pattern: pattern@,
            },
            FiringStep::EnableKioskMode {
                activity_fqcn,
                block_home,
                block_back,
                block_recents,
                relaunch_debounce_ms,
                hide_status_bar,
                hide_nav_bar,
            } => StepView::EnableKioskMode {
                activity_fqcn: activity_fqcn@,
                block_home: *block_home,
                block_back: *block_back,
                block_recents: *block_recents,
                relaunch_debounce_ms: *relaunch_debounce_ms,
                hide_status_bar: *hide_status_bar,
                hide_nav_bar: *hide_nav_bar,
            },
            FiringStep::ShowFullScreenIntent { activity_fqcn, dismiss_keyguard } =>
                StepView::ShowFullScreenIntent {
                activity_fqcn: activity_fqcn@,
                dismiss_keyguard: *dismiss_keyguard,
            },
            FiringStep::AcquireWakeLock { tag, timeout_ms } => StepView::AcquireWakeLock {
                tag: tag@,
                timeout_ms: *timeout_ms,
            },
            FiringStep::StopSound => StepView::StopSound,
            FiringStep::StopVibration => StepView::StopVibration,
            FiringStep::ReleaseWakeLock { tag } => StepView::ReleaseWakeLock { tag: tag@ },
            FiringStep::DisableKioskMode => StepView::DisableKioskMode,
            FiringStep::StopForegroundService => StepView::StopForegroundService,
            FiringStep::ScheduleExactAlarm { alarm_id, target_unix_ms, metadata_json } =>
                StepView::ScheduleExactAlarm {
                alarm_id: alarm_id@,
                target_unix_ms: *target_unix_ms,
                metadata_json: opt_view(*metadata_json),
            },
            FiringStep::CancelExactAlarm { alarm_id } => StepView::CancelExactAlarm {
                alarm_id: alarm_id@,
            },
        }
    }
}

/// The views of a sequence of steps.
pub open spec fn step_views(steps: Seq<FiringStep>) -> Seq<StepView> {
    steps.map_values(|s: FiringStep| s@)
}

/// The wake-lock tag held while firing.
pub const FIRING_WAKE_LOCK_TAG: &'static str = "sentinel.firing";

/// How long the firing wake lock is held at most: five minutes.
pub const FIRING_WAKE_LOCK_TIMEOUT_MS: u64 = 300000;

/// The URI that means "no sound".
pub const SILENT_URI: &'static str = "silent://";

/// The default alarm buzz: pause, long buzz, short gap, long buzz.
pub open spec fn default_vibration_pattern() -> Seq<i64> {
    seq![0i64, 400i64, 200i64, 400i64]
}

/// Whether the full-screen intent is wanted: asked for, and the firing
/// activity is not already in the foreground.
pub open spec fn wants_full_screen(req: FireRequest, activity_resumed: bool) -> bool {
    req.firing_full_screen && match req.activity_fqcn {
        Some(_) => !activity_resumed,
        None => true,
    }
}

/// The sound is played: the URI is neither empty nor `silent://`.
pub open spec fn plays_sound(req: FireRequest) -> bool {
    req.sound_uri@.len() > 0 && req.sound_uri@ != SILENT_URI@
}

/// The step that starts the foreground service.
pub open spec fn fgs_step(req: FireRequest, activity_resumed: bool) -> StepView {
    StepView::StartForegroundService {
        channel_id: req.channel_id@,
        channel_name: req.channel_name@,
        title: req.title@,
        body: req.body@,
        importance: req.importance,
        bypass_dnd: req.bypass_dnd,
        activity_fqcn: opt_view(req.activity_fqcn),
        full_screen: wants_full_screen(req, activity_resumed),
    }
}

/// `s` when `b`, else nothing.
pub open spec fn when(b: bool, s: StepView) -> Seq<StepView> {
    if b {
        seq![s]
    } else {
        seq![]
    }
}

/// The calls that engage the firing surface, in order.
pub open spec fn start_plan(req: FireRequest, f: FiringFeatures, activity_resumed: bool) -> Seq<
    StepView,
> {
    when(f.foreground_service, fgs_step(req, activity_resumed)) + when(
        f.firing_audio && plays_sound(req),
        StepView::PlaySound {
            uri: req.sound_uri@,
            usage: req.audio_usage@,
            content_type: req.audio_content_type@,
            looping: req.looping,
        },
    ) + when(
        f.firing_vibration && req.vibrate,
        StepView::StartVibration {
            pattern: if req.vibration_pattern@.len() == 0 {
                default_vibration_pattern()
            } else {
                req.vibration_pattern@
            },
        },
    ) + when(
        f.kiosk && req.kiosk_mode && req.activity_fqcn is Some,
        StepView::EnableKioskMode {
            activity_fqcn: opt_view(req.activity_fqcn).unwrap(),
            block_home: req.kiosk_block_home,
            block_back: req.kiosk_block_back,
            block_recents: req.kiosk_block_recents,
            relaunch_debounce_ms: req.kiosk_debounce_ms,
            hide_status_bar: req.kiosk_hide_status_bar,
            hide_nav_bar: req.kiosk_hide_nav_bar,
        },
    ) + when(
        f.full_screen_intent && req.firing_full_screen && req.activity_fqcn is Some,
        StepView::ShowFullScreenIntent {
            activity_fqcn: opt_view(req.activity_fqcn).unwrap(),
            dismiss_keyguard: true,
        },
    ) + when(
        f.wake_lock,
        StepView::AcquireWakeLock {
            tag: FIRING_WAKE_LOCK_TAG@,
            timeout_ms: FIRING_WAKE_LOCK_TIMEOUT_MS,
        },
    )
}

/// The calls that tear the firing surface down, in order.
pub open spec fn stop_plan(f: FiringFeatures) -> Seq<StepView> {
    when(f.firing_audio, StepView::StopSound) + when(f.firing_vibration, StepView::StopVibration)
        + when(f.wake_lock, StepView::ReleaseWakeLock { tag: FIRING_WAKE_LOCK_TAG@ }) + when(
        f.kiosk,
        StepView::DisableKioskMode,
    ) + when(f.foreground_service, StepView::StopForegroundService)
}

/// The calls that pause the firing audio.
pub open spec fn pause_plan(f: FiringFeatures) -> Seq<StepView> {
    when(f.firing_audio, StepView::StopSound) + when(f.firing_vibration, StepView::StopVibration)
}

fn push_when(steps: &mut Vec<FiringStep>, b: bool, s: FiringStep)
    ensures
        step_views(final(steps)@) == step_views(old(steps)@) + when(b, s@),
{
    let ghost before = steps@;
    if b {
        steps.push(s);
        assert(step_views(steps@) =~= step_views(before) + seq![s@]);
    } else {
        assert(step_views(steps@) =~= step_views(before) + Seq::<StepView>::empty());
    }
}

/// JNI-backed firing surface for Android.
#[derive(Debug, Default, Clone, Copy)]
pub struct AndroidFiringSink;

impl AndroidFiringSink {
    pub fn new() -> (r: Self)
        ensures
            r == (AndroidFiringSink {}),
    {
        AndroidFiringSink
    }

    /// The calls that engage the firing surface for `req`: the foreground
    /// service first (with a full-screen intent unless the firing activity
    /// is already resumed), then audio unless the sound is silent, the
    /// vibration waveform (the default buzz if none is given), kiosk mode
    /// before the full-screen intent, and the firing wake lock.
    pub fn start_firing_plan(
        &self,
        req: &FireRequest,
        features: FiringFeatures,
        activity_resumed: bool,
    ) -> (r: Vec<FiringStep>)
        ensures
            step_views(r@) == start_plan(*req, features, activity_resumed),
    {
        let mut steps: Vec<FiringStep> = Vec::new();
        let want_full_screen = req.firing_full_screen && match &req.activity_fqcn {
            Some(_) => !activity_resumed,
            None => true,
        };
        push_when(
            &mut steps,
            features.foreground_service,
            FiringStep::StartForegroundService {
                channel_id: req.channel_id.clone(),
                channel_name: req.channel_name.clone(),
                title: req.title.clone(),
                body: req.body.clone(),
                importance: req.importance,
                bypass_dnd: req.bypass_dnd,
                activity_fqcn: copy_opt_string(&req.activity_fqcn),
                full_screen: want_full_screen,
            },
        );
        let silent = crate::text::chars_of(req.sound_uri.as_str()).len() == 0
            || crate::text::str_eq(req.sound_uri.as_str(), SILENT_URI);
        push_when(
            &mut steps,
            features.firing_audio && !silent,
            FiringStep::PlaySound {
                uri: req.sound_uri.clone(),
                usage: req.audio_usage.clone(),
                content_type: req.audio_content_type.clone(),
                looping: req.looping,
            },
        );
        let pattern = if req.vibration_pattern.len() == 0 {
            let v: Vec<i64> = vec![0i64, 400i64, 200i64, 400i64];
            assert(v@ =~= default_vibration_pattern());
            v
        } else {
            copy_i64s(&req.vibration_pattern)
        };
        push_when(
            &mut steps,
            features.firing_vibration && req.vibrate,
            FiringStep::StartVibration { pattern },
        );
        let fqcn = match &req.activity_fqcn {
            Some(s) => s.clone(),
            None => String::new(),
        };
        push_when(
            &mut steps,
            features.kiosk && req.kiosk_mode && req.activity_fqcn.is_some(),
            FiringStep::EnableKioskMode {
                activity_fqcn: fqcn.clone(),
                block_home: req.kiosk_block_home,
                block_back: req.kiosk_block_back,
                block_recents: req.kiosk_block_recents,
                relaunch_debounce_ms: req.kiosk_debounce_ms,
                hide_status_bar: req.kiosk_hide_status_bar,
                hide_nav_bar: req.kiosk_hide_nav_bar,
            },
        );
        push_when(
            &mut steps,
            features.full_screen_intent && req.firing_full_screen && req.activity_fqcn.is_some(),
            FiringStep::ShowFullScreenIntent { activity_fqcn: fqcn, dismiss_keyguard: true },
        );
        push_when(
            &mut steps,
            features.wake_lock,
            FiringStep::AcquireWakeLock {
                tag: FIRING_WAKE_LOCK_TAG.to_owned(),
                timeout_ms: FIRING_WAKE_LOCK_TIMEOUT_MS,
            },
        );
        steps
    }

    /// What `start_firing` reports: whether the critical surface engaged —
    /// the foreground service's own result, or `true` when the build has no
    /// foreground service to engage.
    pub fn start_firing_result(&self, features: FiringFeatures, foreground_service_ok: bool) -> (r:
        bool)
        ensures
            r == (!features.foreground_service || foreground_service_ok),
    {
        !features.foreground_service || foreground_service_ok
    }

    /// The calls that tear everything down: audio, vibration, wake lock,
    /// kiosk, foreground service.
    pub fn stop_firing_plan(&self, features: FiringFeatures) -> (r: Vec<FiringStep>)
        ensures
            step_views(r@) == stop_plan(features),
    {
        let mut steps: Vec<FiringStep> = Vec::new();
        push_when(&mut steps, features.firing_audio, FiringStep::StopSound);
        push_when(&mut steps, features.firing_vibration, FiringStep::StopVibration);
        push_when(
            &mut steps,
            features.wake_lock,
            FiringStep::ReleaseWakeLock { tag: FIRING_WAKE_LOCK_TAG.to_owned() },
        );
        push_when(&mut steps, features.kiosk, FiringStep::DisableKioskMode);
        push_when(&mut steps, features.foreground_service, FiringStep::StopForegroundService);
        steps
    }

    /// The calls that pause the firing audio: stop the sound and the
    /// vibration. Bringing the alarm back is a full `start_firing`.
    pub fn pause_audio_plan(&self, features: FiringFeatures) -> (r: Vec<FiringStep>)
        ensures
            step_views(r@) == pause_plan(features),
    {
        let mut steps: Vec<FiringStep> = Vec::new();
        push_when(&mut steps, features.firing_audio, FiringStep::StopSound);
        push_when(&mut steps, features.firing_vibration, FiringStep::StopVibration);
        steps
    }

    /// The call that schedules the exact alarm, when the build has the
    /// `exact-alarm` surface; without it scheduling reports `false`.
    pub fn schedule_exact_alarm_plan(&self, req: &ExactAlarmRequest, features: FiringFeatures) -> (r:
        Option<FiringStep>)
        ensures
            features.exact_alarm <==> r is Some,
            r matches Some(s) ==> s@ == (StepView::ScheduleExactAlarm {
                alarm_id: req.alarm_id@,
                target_unix_ms: req.target_unix_ms,
                metadata_json: opt_view(req.metadata_json),
            }),
    {
        if features.exact_alarm {
            Some(
                FiringStep::ScheduleExactAlarm {
                    alarm_id: req.alarm_id.clone(),
                    target_unix_ms: req.target_unix_ms,
                    metadata_json: copy_opt_string(&req.metadata_json),
                },
            )
        } else {
            None
        }
    }

    /// The call that cancels the exact alarm, when the build has the
    /// `exact-alarm` surface.
    pub fn cancel_exact_alarm_plan(&self, alarm_id: &str, features: FiringFeatures) -> (r: Option<
        FiringStep,
    >)
        ensures
            features.exact_alarm <==> r is Some,
            r matches Some(s) ==> s@ == (StepView::CancelExactAlarm { alarm_id: alarm_id@ }),
    {
        if features.exact_alarm {
            Some(FiringStep::CancelExactAlarm { alarm_id: alarm_id.to_owned() })
        } else {
            None
        }
    }

    /// The system-default sound when it is known without asking the
    /// platform: `silent://` when the build has no firing audio; `None` when
    /// the platform is to be asked.
    pub fn system_default_sound_uri_fallback(&self, features: FiringFeatures) -> (r: Option<
        String,
    >)
        ensures
            features.firing_audio <==> r is None,
            r matches Some(s) ==> s@ == SILENT_URI@,
    {
        if features.firing_audio {
            None
        } else {
            Some(SILENT_URI.to_owned())
        }
    }
}

/// The call that releases what a start step engaged, if any (the
/// full-screen intent needs none).
pub open spec fn release_of(s: StepView) -> Option<StepView> {
    match s {
        StepView::StartForegroundService { .. } => Some(StepView::StopForegroundService),
        StepView::PlaySound { .. } => Some(StepView::StopSound),
        StepView::StartVibration { .. } => Some(StepView::StopVibration),
        StepView::EnableKioskMode { .. } => Some(StepView::DisableKioskMode),
        StepView::AcquireWakeLock { tag, .. } => Some(StepView::ReleaseWakeLock { tag }),
        _ => None,
    }
}

/// The kind of each step of the start plan occurs only when its surface is
/// enabled.
#[verifier::rlimit(60)]
proof fn lemma_start_plan_kinds(req: FireRequest, f: FiringFeatures, activity_resumed: bool, i: int)
    requires
        0 <= i < start_plan(req, f, activity_resumed).len(),
    ensures
        ({
            let st = start_plan(req, f, activity_resumed)[i];
            &&& st is StartForegroundService ==> f.foreground_service && i == 0 && st == fgs_step(
                req,
                activity_resumed,
            )
            &&& st is PlaySound ==> f.firing_audio
            &&& st is StartVibration ==> f.firing_vibration
            &&& st is EnableKioskMode ==> f.kiosk
            &&& st is AcquireWakeLock ==> f.wake_lock && st->AcquireWakeLock_tag
                == FIRING_WAKE_LOCK_TAG@
        }),
{
    let s1 = when(f.foreground_service, fgs_step(req, activity_resumed));
    let s2 = when(
        f.firing_audio && plays_sound(req),
        StepView::PlaySound {
            uri: req.sound_uri@,
            usage: req.audio_usage@,
            content_type: req.audio_content_type@,
            looping: req.looping,
        },
    );
    let s3 = when(
        f.firing_vibration && req.vibrate,
        StepView::StartVibration {
            pattern: if req.vibration_pattern@.len() == 0 {
                default_vibration_pattern()
            } else {
                req.vibration_pattern@
            },
        },
    );
    let s4 = when(
        f.kiosk && req.kiosk_mode && req.activity_fqcn is Some,
        StepView::EnableKioskMode {
            activity_fqcn: opt_view(req.activity_fqcn).unwrap(),
            block_home: req.kiosk_block_home,
            block_back: req.kiosk_block_back,
            block_recents: req.kiosk_block_recents,
            relaunch_debounce_ms: req.kiosk_debounce_ms,
            hide_status_bar: req.kiosk_hide_status_bar,
            hide_nav_bar: req.kiosk_hide_nav_bar,
        },
    );
    let s5 = when(
        f.full_screen_intent && req.firing_full_screen && req.activity_fqcn is Some,
        StepView::ShowFullScreenIntent {
            activity_fqcn: opt_view(req.activity_fqcn).unwrap(),
            dismiss_keyguard: true,
        },
    );
    let s6 = when(
        f.wake_lock,
        StepView::AcquireWakeLock {
            tag: FIRING_WAKE_LOCK_TAG@,
            timeout_ms: FIRING_WAKE_LOCK_TIMEOUT_MS,
        },
    );
    let p = start_plan(req, f, activity_resumed);
    assert(p == s1 + s2 + s3 + s4 + s5 + s6);
    let n1 = s1.len() as int;
    let n2 = n1 + s2.len();
    let n3 = n2 + s3.len();
    let n4 = n3 + s4.len();
    let n5 = n4 + s5.len();
    if i < n1 {
        assert(p[i] == s1[i]);
    } else if i < n2 {
        assert(p[i] == s2[i - n1]);
    } else if i < n3 {
        assert(p[i] == s3[i - n2]);
    } else if i < n4 {
        assert(p[i] == s4[i - n3]);
    } else if i < n5 {
        assert(p[i] == s5[i - n4]);
    } else {
        assert(p[i] == s6[i - n5]);
    }
}

/// The firing notification shows the request: the foreground service is
/// started exactly when that feature is on, as the first call, and its step
/// carries the request's channel id and name, title, body, importance,
/// do-not-disturb choice and activity, each taken from the request's field
/// of the same name.
pub proof fn law_notification_shows_the_request(
    req: FireRequest,
    f: FiringFeatures,
    activity_resumed: bool,
)
    ensures
        f.foreground_service ==> start_plan(req, f, activity_resumed).len() > 0 && start_plan(
            req,
            f,
            activity_resumed,
        )[0] is StartForegroundService,
        forall|i: int|
            0 <= i < start_plan(req, f, activity_resumed).len() && (#[trigger] start_plan(
                req,
                f,
                activity_resumed,
            )[i]) is StartForegroundService ==> {
                let st = start_plan(req, f, activity_resumed)[i];
                &&& i == 0
                &&& f.foreground_service
                &&& st->StartForegroundService_channel_id == req.channel_id@
                &&& st->StartForegroundService_channel_name == req.channel_name@
                &&& st->StartForegroundService_title == req.title@
                &&& st->StartForegroundService_body == req.body@
                &&& st->StartForegroundService_importance == req.importance
                &&& st->StartForegroundService_bypass_dnd == req.bypass_dnd
                &&& st->StartForegroundService_activity_fqcn == opt_view(req.activity_fqcn)
            },
{
    let p = start_plan(req, f, activity_resumed);
    if f.foreground_service {
        let rest = p.skip(1);
        assert(p[0] == seq![fgs_step(req, activity_resumed)][0]);
    }
    assert forall|i: int| 0 <= i < p.len() && (#[trigger] p[i]) is StartForegroundService implies {
        let st = p[i];
        &&& i == 0
        &&& f.foreground_service
        &&& st->StartForegroundService_channel_id == req.channel_id@
        &&& st->StartForegroundService_channel_name == req.channel_name@
        &&& st->StartForegroundService_title == req.title@
        &&& st->StartForegroundService_body == req.body@
        &&& st->StartForegroundService_importance == req.importance
        &&& st->StartForegroundService_bypass_dnd == req.bypass_dnd
        &&& st->StartForegroundService_activity_fqcn == opt_view(req.activity_fqcn)
    } by {
        lemma_start_plan_kinds(req, f, activity_resumed, i);
    }
}

proof fn lemma_in_segment(
    a: Seq<StepView>,
    b: Seq<StepView>,
    c: Seq<StepView>,
    d: Seq<StepView>,
    e: Seq<StepView>,
    x: StepView,
)
    requires
        a.contains(x) || b.contains(x) || c.contains(x) || d.contains(x) || e.contains(x),
    ensures
        (a + b + c + d + e).contains(x),
{
    let s = a + b + c + d + e;
    if a.contains(x) {
        let j = choose|j: int| 0 <= j < a.len() && a[j] == x;
        assert(s[j] == x);
    } else if b.contains(x) {
        let j = choose|j: int| 0 <= j < b.len() && b[j] == x;
        assert(s[a.len() + j] == x);
    } else if c.contains(x) {
        let j = choose|j: int| 0 <= j < c.len() && c[j] == x;
        assert(s[a.len() + b.len() + j] == x);
    } else if d.contains(x) {
        let j = choose|j: int| 0 <= j < d.len() && d[j] == x;
        assert(s[a.len() + b.len() + c.len() + j] == x);
    } else {
        let j = choose|j: int| 0 <= j < e.len() && e[j] == x;
        assert(s[a.len() + b.len() + c.len() + d.len() + j] == x);
    }
}

/// Tearing down releases everything engaging engaged: for every step of
/// the start plan that holds a surface, the stop plan of the same build
/// makes the call that releases it.
pub proof fn law_stop_releases_what_start_engaged(
    req: FireRequest,
    f: FiringFeatures,
    activity_resumed: bool,
    i: int,
)
    requires
        0 <= i < start_plan(req, f, activity_resumed).len(),
        release_of(start_plan(req, f, activity_resumed)[i]) is Some,
    ensures
        stop_plan(f).contains(release_of(start_plan(req, f, activity_resumed)[i])->0),
{
    lemma_start_plan_kinds(req, f, activity_resumed, i);
    let st = start_plan(req, f, activity_resumed)[i];
    let r = release_of(st)->0;
    let a = when(f.firing_audio, StepView::StopSound);
    let v = when(f.firing_vibration, StepView::StopVibration);
    let w = when(f.wake_lock, StepView::ReleaseWakeLock { tag: FIRING_WAKE_LOCK_TAG@ });
    let k = when(f.kiosk, StepView::DisableKioskMode);
    let g = when(f.foreground_service, StepView::StopForegroundService);
    assert(stop_plan(f) == a + v + w + k + g);
    if st is StartForegroundService {
        assert(g[0] == r);
    } else if st is PlaySound {
        assert(a[0] == r);
    } else if st is StartVibration {
        assert(v[0] == r);
    } else if st is EnableKioskMode {
        assert(k[0] == r);
    } else {
        assert(w[0] == r);
    }
    lemma_in_segment(a, v, w, k, g, r);
}

} // verus!
