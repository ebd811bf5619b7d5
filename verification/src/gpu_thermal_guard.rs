//! The guard that pauses a peer whose GPU stays hot.

use crate::client_config::settings;
use crate::client_config::settings::GpuThermalSettings;
use crate::client_config::types::ClientConfig;
use crate::shared::{DeviceV, GpuHostStatus, GpuThermalGuardStatus, StatusV};
use vstd::prelude::*;

verus! {

/// What the guard remembers.
#[derive(Debug, Clone, Copy, PartialEq, Eq, Structural)]
pub struct GpuThermalGuardTracker {
    /// Since when the GPU is too hot, in milliseconds.
    pub over_threshold_since: Option<u64>,
    pub peak_temp_c: Option<u8>,
    pub caused_pause: bool,
}

impl Default for GpuThermalGuardTracker {
    fn default() -> (r: Self)
        ensures
            r == (GpuThermalGuardTracker {
                over_threshold_since: None,
                peak_temp_c: None,
                caused_pause: false,
            }),
    {
        GpuThermalGuardTracker {
            over_threshold_since: None,
            peak_temp_c: None,
            caused_pause: false,
        }
    }
}

/// What the guard asks for.
#[derive(Debug, Clone, Copy, PartialEq, Eq, Structural)]
pub enum ThermalAction {
    Nothing,
    Pause,
    Resume,
}

/// The higher of two temperatures.
pub open spec fn hotter(a: Option<u8>, b: Option<u8>) -> Option<u8> {
    match (a, b) {
        (Some(x), Some(y)) => if x >= y {
            a
        } else {
            b
        },
        (None, _) => b,
        (_, None) => a,
    }
}

/// The highest temperature of the GPUs, from `start` on.
pub open spec fn hottest(d: Seq<DeviceV>, start: Option<u8>) -> Option<u8>
    decreases d.len(),
{
    if d.len() == 0 {
        start
    } else {
        hotter(hottest(d.drop_last(), start), d.last().temperature_c)
    }
}

/// The highest temperature of a host.
pub open spec fn host_temperature(gpu: StatusV) -> Option<u8> {
    match gpu.devices {
        Some(d) => hottest(d, gpu.temperature_c),
        None => gpu.temperature_c,
    }
}

/// What the guard knows and shows, and what it asks for.
pub struct Evaluation {
    pub tracker: GpuThermalGuardTracker,
    pub status: GpuThermalGuardStatus,
    pub action: ThermalAction,
}

/// How many seconds lie between two times in milliseconds.
pub open spec fn seconds_between(since: u64, now: u64) -> int {
    if now >= since {
        (now - since) / 1000
    } else {
        0
    }
}

/// What follows where the GPU is not watched.
pub open spec fn unwatched(t: GpuThermalGuardTracker, s: GpuThermalGuardStatus) -> Evaluation {
    if t.caused_pause {
        Evaluation { tracker: t, status: s, action: ThermalAction::Nothing }
    } else {
        Evaluation {
            tracker: GpuThermalGuardTracker {
                over_threshold_since: None,
                peak_temp_c: None,
                ..t
            },
            status: if s.active && !s.caused_pause {
                GpuThermalGuardStatus {
                    active: false,
                    triggered_at: None,
                    peak_temp_c: None,
                    threshold_c: 0,
                    caused_pause: false,
                }
            } else {
                s
            },
            action: ThermalAction::Nothing,
        }
    }
}

/// What follows where the GPU is too hot.
pub open spec fn overheated(
    t: GpuThermalGuardTracker,
    s: GpuThermalGuardStatus,
    set: GpuThermalSettings,
    temp: u8,
    now: u64,
) -> Evaluation {
    let since = match t.over_threshold_since {
        Some(x) => x,
        None => now,
    };
    let tracker = GpuThermalGuardTracker {
        over_threshold_since: Some(since),
        peak_temp_c: if t.over_threshold_since is None {
            Some(temp)
        } else {
            hotter(t.peak_temp_c, Some(temp))
        },
        ..t
    };
    if seconds_between(since, now) >= set.duration_secs && !t.caused_pause {
        Evaluation { tracker, status: s, action: ThermalAction::Pause }
    } else {
        Evaluation {
            tracker,
            status: if s.active {
                s
            } else {
                GpuThermalGuardStatus { threshold_c: set.threshold_c, ..s }
            },
            action: ThermalAction::Nothing,
        }
    }
}

/// What follows where the GPU cooled down.
pub open spec fn cooled(
    t: GpuThermalGuardTracker,
    s: GpuThermalGuardStatus,
    set: GpuThermalSettings,
) -> Evaluation {
    Evaluation {
        tracker: GpuThermalGuardTracker { over_threshold_since: None, peak_temp_c: None, ..t },
        status: if t.caused_pause && !set.auto_resume {
            GpuThermalGuardStatus { active: false, ..s }
        } else {
            s
        },
        action: if t.caused_pause && set.auto_resume {
            ThermalAction::Resume
        } else {
            ThermalAction::Nothing
        },
    }
}

/// What follows from one reading, taken at `now`.
pub open spec fn evaluated(
    t: GpuThermalGuardTracker,
    s: GpuThermalGuardStatus,
    set: GpuThermalSettings,
    gpu: StatusV,
    now: u64,
) -> Evaluation {
    if !set.enabled || !gpu.available {
        unwatched(t, s)
    } else {
        match host_temperature(gpu) {
            None => Evaluation { tracker: t, status: s, action: ThermalAction::Nothing },
            Some(temp) => if temp >= set.threshold_c {
                overheated(t, s, set, temp, now)
            } else if temp <= set.cooldown_c {
                cooled(t, s, set)
            } else {
                Evaluation {
                    tracker: GpuThermalGuardTracker { over_threshold_since: None, ..t },
                    status: s,
                    action: ThermalAction::Nothing,
                }
            },
        }
    }
}

fn hotter_of(a: Option<u8>, b: Option<u8>) -> (r: Option<u8>)
    ensures
        r == hotter(a, b),
{
    match (a, b) {
        (Some(x), Some(y)) => if x >= y {
            a
        } else {
            b
        },
        (None, _) => b,
        (_, None) => a,
    }
}

impl GpuThermalGuardTracker {
    /// The highest temperature of a host.
    pub fn max_temp_c(gpu: &GpuHostStatus) -> (r: Option<u8>)
        ensures
            r == host_temperature(gpu@),
    {
        let mut max: Option<u8> = gpu.temperature_c;
        if let Some(devices) = &gpu.devices {
            let ghost d = gpu@.devices->0;
            for i in 0..devices.len()
                invariant
                    d == crate::shared::devices_view(devices@),
                    max == hottest(d.take(i as int), gpu.temperature_c),
            {
                assert(d.take(i as int + 1).drop_last() =~= d.take(i as int));
                max = hotter_of(max, devices[i].temperature_c);
            }
            assert(d.take(d.len() as int) =~= d);
        }
        max
    }

    /// Takes one reading in, at `now` milliseconds of a clock that never goes
    /// back, and says what is to be done. Whether that was done, [`Self::paused`]
    /// and [`Self::resumed`] take in.
    pub fn evaluate(
        &mut self,
        gpu: &GpuHostStatus,
        cfg: &ClientConfig,
        status: &mut GpuThermalGuardStatus,
        now: u64,
    ) -> (r: ThermalAction)
        ensures
            (Evaluation { tracker: *final(self), status: *final(status), action: r }) == evaluated(
                *old(self),
                *old(status),
                settings::thermal_settings(cfg@),
                gpu@,
                now,
            ),
    {
        let set = settings::effective_gpu_thermal_settings(cfg);
        if !set.enabled || !gpu.available {
            if !self.caused_pause {
                self.over_threshold_since = None;
                self.peak_temp_c = None;
                if status.active && !status.caused_pause {
                    *status = GpuThermalGuardStatus::default();
                }
            }
            return ThermalAction::Nothing;
        }
        let temp: u8 = match Self::max_temp_c(gpu) {
            Some(t) => t,
            None => {
                return ThermalAction::Nothing;
            },
        };
        if temp >= set.threshold_c {
            let since: u64 = match self.over_threshold_since {
                Some(t) => {
                    self.peak_temp_c = hotter_of(self.peak_temp_c, Some(temp));
                    t
                },
                None => {
                    self.over_threshold_since = Some(now);
                    self.peak_temp_c = Some(temp);
                    now
                },
            };
            let elapsed: u64 = if now >= since {
                (now - since) / 1000
            } else {
                0
            };
            if elapsed >= set.duration_secs && !self.caused_pause {
                return ThermalAction::Pause;
            }
            if !status.active {
                status.threshold_c = set.threshold_c;
            }
            ThermalAction::Nothing
        } else if temp <= set.cooldown_c {
            self.over_threshold_since = None;
            self.peak_temp_c = None;
            if self.caused_pause && set.auto_resume {
                return ThermalAction::Resume;
            }
            if self.caused_pause {
                status.active = false;
            }
            ThermalAction::Nothing
        } else {
            self.over_threshold_since = None;
            ThermalAction::Nothing
        }
    }

    /// Takes in whether the pause that the guard asked for was made, at `unix`.
    pub fn paused(
        &mut self,
        done: bool,
        threshold_c: u8,
        unix: u64,
        status: &mut GpuThermalGuardStatus,
    )
        ensures
            *final(self) == (GpuThermalGuardTracker {
                caused_pause: old(self).caused_pause || done,
                ..*old(self)
            }),
            *final(status) == if done {
                GpuThermalGuardStatus {
                    active: true,
                    triggered_at: Some(unix),
                    peak_temp_c: old(self).peak_temp_c,
                    threshold_c,
                    caused_pause: true,
                }
            } else {
                *old(status)
            },
    {
        if done {
            self.caused_pause = true;
            *status = GpuThermalGuardStatus {
                active: true,
                triggered_at: Some(unix),
                peak_temp_c: self.peak_temp_c,
                threshold_c,
                caused_pause: true,
            };
        }
    }

    /// Takes in whether the pause was ended, as the guard asked.
    pub fn resumed(&mut self, done: bool, status: &mut GpuThermalGuardStatus)
        ensures
            *final(self) == (GpuThermalGuardTracker {
                caused_pause: old(self).caused_pause && !done,
                ..*old(self)
            }),
            *final(status) == if done {
                GpuThermalGuardStatus {
                    active: false,
                    triggered_at: None,
                    peak_temp_c: None,
                    threshold_c: 0,
                    caused_pause: false,
                }
            } else {
                *old(status)
            },
    {
        if done {
            self.caused_pause = false;
            *status = GpuThermalGuardStatus::default();
        }
    }
}

/// The settings of the guard, where none are given.
pub fn default_gpu_thermal_settings() -> (r: GpuThermalSettings)
    ensures
        r == (GpuThermalSettings {
            enabled: true,
            threshold_c: 85,
            duration_secs: 60,
            cooldown_c: 75,
            auto_resume: true,
        }),
        r == settings::thermal_settings(settings::default_config()),
{
    GpuThermalSettings {
        enabled: true,
        threshold_c: 85,
        duration_secs: 60,
        cooldown_c: 75,
        auto_resume: true,
    }
}

/// The guard asks for a pause only while it watches, when the GPU has been too hot
/// for the whole time that the settings give, and when it has not paused the peer
/// already.
pub proof fn law_pause_has_its_reason(
    t: GpuThermalGuardTracker,
    s: GpuThermalGuardStatus,
    set: GpuThermalSettings,
    gpu: StatusV,
    now: u64,
)
    requires
        evaluated(t, s, set, gpu, now).action == ThermalAction::Pause,
    ensures
        set.enabled && gpu.available,
        host_temperature(gpu) matches Some(x) && x >= set.threshold_c,
        !t.caused_pause,
        set.duration_secs > 0 ==> (t.over_threshold_since matches Some(since) && seconds_between(
            since,
            now,
        ) >= set.duration_secs),
{
}

/// The guard asks to end only a pause that it made itself, after the GPU cooled
/// down, where the settings let it.
pub proof fn law_resume_ends_own_pause(
    t: GpuThermalGuardTracker,
    s: GpuThermalGuardStatus,
    set: GpuThermalSettings,
    gpu: StatusV,
    now: u64,
)
    requires
        evaluated(t, s, set, gpu, now).action == ThermalAction::Resume,
    ensures
        t.caused_pause && set.auto_resume && set.enabled,
        host_temperature(gpu) matches Some(x) && x <= set.cooldown_c && x < set.threshold_c,
{
}

/// A GPU that falls below the threshold starts the time anew: the guard never asks
/// for a pause right after, unless no time is given.
pub proof fn law_time_starts_anew(
    t: GpuThermalGuardTracker,
    s: GpuThermalGuardStatus,
    set: GpuThermalSettings,
    cool: StatusV,
    hot: StatusV,
    now: u64,
    later: u64,
)
    requires
        set.enabled && cool.available && set.duration_secs > 0,
        host_temperature(cool) matches Some(x) && x < set.threshold_c,
    ensures
        ({
            let e = evaluated(t, s, set, cool, now);
            evaluated(e.tracker, e.status, set, hot, later).action != ThermalAction::Pause
        }),
{
}

proof fn lemma_hottest(d: Seq<DeviceV>, start: Option<u8>)
    ensures
        start matches Some(t) ==> (hottest(d, start) matches Some(h) && h >= t),
        forall|i: int|
            0 <= i < d.len() ==> ((#[trigger] d[i]).temperature_c matches Some(t) ==> (hottest(
                d,
                start,
            ) matches Some(h) && h >= t)),
        hottest(d, start) matches Some(h) ==> start == Some(h) || exists|i: int|
            0 <= i < d.len() && (#[trigger] d[i]).temperature_c == Some(h),
    decreases d.len(),
{
    if d.len() > 0 {
        let front = d.drop_last();
        lemma_hottest(front, start);
        assert forall|i: int| 0 <= i < d.len() implies ((
        #[trigger] d[i]).temperature_c matches Some(t) ==> (hottest(d, start) matches Some(h) && h
            >= t)) by {
            if i < front.len() {
                assert(front[i] == d[i]);
            }
        }
        if let Some(h) = hottest(d, start) {
            if d.last().temperature_c == Some(h) {
                assert(d[d.len() - 1].temperature_c == Some(h));
            } else if start != Some(h) {
                let i = choose|i: int|
                    0 <= i < front.len() && (#[trigger] front[i]).temperature_c == Some(h);
                assert(d[i].temperature_c == Some(h));
            }
        }
    }
}

/// The temperature of a host is that of its hottest part: none is hotter, and one has
/// it. Without any temperature there is none.
pub proof fn law_hottest_part_counts(gpu: StatusV)
    ensures
        gpu.temperature_c matches Some(t) ==> (host_temperature(gpu) matches Some(h) && h >= t),
        gpu.devices matches Some(d) ==> forall|i: int|
            0 <= i < d.len() ==> ((#[trigger] d[i]).temperature_c matches Some(t) ==> (
            host_temperature(gpu) matches Some(h) && h >= t)),
        host_temperature(gpu) matches Some(h) ==> gpu.temperature_c == Some(h) || (
        gpu.devices matches Some(d) && exists|i: int|
            0 <= i < d.len() && (#[trigger] d[i]).temperature_c == Some(h)),
{
    if let Some(d) = gpu.devices {
        lemma_hottest(d, gpu.temperature_c);
    }
}

/// A peer whose GPU stays hot is paused: where the guard watches, one GPU is at the
/// threshold or above, it has been so for the whole time that the settings give, and
/// the guard has not paused the peer yet, it asks for the pause.
pub proof fn law_hot_peer_is_paused(
    t: GpuThermalGuardTracker,
    s: GpuThermalGuardStatus,
    set: GpuThermalSettings,
    gpu: StatusV,
    d: Seq<DeviceV>,
    i: int,
    temp: u8,
    since: u64,
    now: u64,
)
    requires
        set.enabled,
        gpu.available,
        gpu.devices == Some(d),
        0 <= i < d.len(),
        d[i].temperature_c == Some(temp),
        temp >= set.threshold_c,
        t.over_threshold_since == Some(since),
        now >= since + 1000 * set.duration_secs,
        !t.caused_pause,
    ensures
        evaluated(t, s, set, gpu, now).action == ThermalAction::Pause,
{
    law_hottest_part_counts(gpu);
    assert((now - since) / 1000 >= set.duration_secs);
}

/// Two hot readings, with no cooler one between them and the time of the settings
/// apart, pause a peer that was not hot before; not earlier.
pub proof fn law_two_hot_readings_pause(
    t: GpuThermalGuardTracker,
    s: GpuThermalGuardStatus,
    set: GpuThermalSettings,
    first: StatusV,
    second: StatusV,
    now: u64,
    later: u64,
)
    requires
        set.enabled,
        first.available,
        second.available,
        host_temperature(first) matches Some(x) && x >= set.threshold_c,
        host_temperature(second) matches Some(x) && x >= set.threshold_c,
        t.over_threshold_since is None,
        !t.caused_pause,
        set.duration_secs > 0,
        now <= later,
    ensures
        ({
            let e = evaluated(t, s, set, first, now);
            &&& e.action == ThermalAction::Nothing
            &&& e.tracker.over_threshold_since == Some(now)
            &&& e.tracker.peak_temp_c == host_temperature(first)
            &&& later >= now + 1000 * set.duration_secs ==> evaluated(
                e.tracker,
                e.status,
                set,
                second,
                later,
            ).action == ThermalAction::Pause
            &&& later < now + 1000 * set.duration_secs ==> evaluated(
                e.tracker,
                e.status,
                set,
                second,
                later,
            ).action == ThermalAction::Nothing
        }),
{
    assert(later >= now + 1000 * set.duration_secs ==> (later - now) / 1000 >= set.duration_secs);
    assert(later < now + 1000 * set.duration_secs ==> (later - now) / 1000 < set.duration_secs);
}

/// The guard ends its own pause once every part of the host has cooled down, where
/// the settings let it; where they do not, it asks for nothing, and shows that the
/// heat is over.
pub proof fn law_cooled_peer_is_resumed(
    t: GpuThermalGuardTracker,
    s: GpuThermalGuardStatus,
    set: GpuThermalSettings,
    gpu: StatusV,
    now: u64,
)
    requires
        set.enabled,
        gpu.available,
        set.cooldown_c < set.threshold_c,
        host_temperature(gpu) matches Some(x) && x <= set.cooldown_c,
        t.caused_pause,
    ensures
        set.auto_resume ==> evaluated(t, s, set, gpu, now).action == ThermalAction::Resume,
        !set.auto_resume ==> evaluated(t, s, set, gpu, now).action == ThermalAction::Nothing
            && !evaluated(t, s, set, gpu, now).status.active,
        evaluated(t, s, set, gpu, now).tracker.over_threshold_since is None,
{
}

/// A guard that is switched off, or whose host gives no reading, asks for nothing,
/// and a pause that it made stays its own.
pub proof fn law_guard_that_is_off_asks_nothing(
    t: GpuThermalGuardTracker,
    s: GpuThermalGuardStatus,
    set: GpuThermalSettings,
    gpu: StatusV,
    now: u64,
)
    requires
        !set.enabled || !gpu.available || host_temperature(gpu) is None,
    ensures
        evaluated(t, s, set, gpu, now).action == ThermalAction::Nothing,
        evaluated(t, s, set, gpu, now).tracker.caused_pause == t.caused_pause,
        t.caused_pause ==> evaluated(t, s, set, gpu, now).status == s,
{
}

/// While a GPU stays hot, the guard remembers since when, and the highest temperature
/// it has seen.
pub proof fn law_heat_is_remembered(
    t: GpuThermalGuardTracker,
    s: GpuThermalGuardStatus,
    set: GpuThermalSettings,
    gpu: StatusV,
    now: u64,
    since: u64,
    temp: u8,
)
    requires
        set.enabled,
        gpu.available,
        host_temperature(gpu) == Some(temp),
        temp >= set.threshold_c,
        t.over_threshold_since == Some(since),
    ensures
        ({
            let after = evaluated(t, s, set, gpu, now).tracker;
            &&& after.over_threshold_since == Some(since)
            &&& after.peak_temp_c matches Some(p) && p >= temp && (t.peak_temp_c matches Some(q)
                ==> p >= q) && (p == temp || t.peak_temp_c == Some(p))
        }),
{
}

} // verus!
