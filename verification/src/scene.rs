use vstd::prelude::*;
use crate::params::{ParamsData, SceneParams, toml_size_bits};

verus! {

/// Auto-stop threshold of the kick scene, in milliseconds.
pub const KICK_THRESHOLD_MS: u64 = 500;

/// Auto-stop threshold of the snare scene, in milliseconds.
pub const SNARE_THRESHOLD_MS: u64 = 100;

/// Auto-stop threshold of the hat scene, in milliseconds.
pub const HAT_THRESHOLD_MS: u64 = 100;

/// The state machine behind one scene: an active flag, the time elapsed
/// since the last trigger, the scene's auto-stop threshold, a counter that
/// debounces a held input key, and the scene's tunable parameters.
///
/// Time is measured in integer milliseconds of the render loop's
/// delta-time, so a triggered scene flashes for a wall-clock duration that
/// does not depend on the frame rate.
#[derive(Clone, Copy, PartialEq, Eq, Structural, Debug)]
pub struct SceneState {
    pub active: bool,
    pub elapsed_ms: u64,
    pub threshold_ms: u64,
    pub key_counter: u32,
    pub params: SceneParams,
}

/// `u64` addition that stops at the largest representable value instead of
/// wrapping; elapsed time keeps its meaning under arbitrary delta-times.
pub open spec fn spec_sat_add_u64(a: u64, b: u64) -> u64 {
    if a + b > u64::MAX {
        u64::MAX
    } else {
        (a + b) as u64
    }
}

pub open spec fn spec_sat_add_u32(a: u32, b: u32) -> u32 {
    if a + b > u32::MAX {
        u32::MAX
    } else {
        (a + b) as u32
    }
}

/// Triggering a scene: it becomes active with its elapsed time reset.
pub open spec fn spec_invoke(s: SceneState) -> SceneState {
    SceneState { active: true, elapsed_ms: 0, ..s }
}

/// Stopping a scene: it becomes inactive with its elapsed time reset.
pub open spec fn spec_stop(s: SceneState) -> SceneState {
    SceneState { active: false, elapsed_ms: 0, ..s }
}

/// One frame of time passing: inactive scenes are untouched; an active
/// scene accumulates the delta-time and stops once the total exceeds its
/// threshold.
pub open spec fn spec_update(s: SceneState, dt_ms: u64) -> SceneState {
    if !s.active {
        s
    } else {
        let e = spec_sat_add_u64(s.elapsed_ms, dt_ms);
        if e > s.threshold_ms {
            spec_stop(s)
        } else {
            SceneState { elapsed_ms: e, ..s }
        }
    }
}

/// An input key going down: playback and invocation fire only on the
/// transition from released to pressed; while the key repeats, only the
/// counter grows.
pub open spec fn spec_key_pressed(s: SceneState) -> SceneState {
    let s1 = if s.key_counter == 0 {
        spec_invoke(s)
    } else {
        s
    };
    SceneState { key_counter: spec_sat_add_u32(s.key_counter, 1), ..s1 }
}

impl SceneState {
    /// A fresh, inactive scene with the given auto-stop threshold and
    /// default parameters.
    pub fn new(threshold_ms: u64) -> (r: SceneState)
        ensures
            r == (SceneState {
                active: false,
                elapsed_ms: 0,
                threshold_ms,
                key_counter: 0,
                params: SceneParams { size_bits: 0 },
            }),
    {
        SceneState {
            active: false,
            elapsed_ms: 0,
            threshold_ms,
            key_counter: 0,
            params: SceneParams { size_bits: 0 },
        }
    }

    pub fn invoke(&mut self)
        ensures
            *final(self) == spec_invoke(*old(self)),
    {
        self.active = true;
        self.elapsed_ms = 0;
    }

    pub fn stop(&mut self)
        ensures
            *final(self) == spec_stop(*old(self)),
    {
        self.active = false;
        self.elapsed_ms = 0;
    }

    pub fn update(&mut self, dt_ms: u64)
        ensures
            *final(self) == spec_update(*old(self), dt_ms),
            !old(self).active ==> *final(self) == *old(self),
    {
        if !self.active {
            return;
        }
        let e: u64 = if dt_ms > u64::MAX - self.elapsed_ms {
            u64::MAX
        } else {
            self.elapsed_ms + dt_ms
        };
        if e > self.threshold_ms {
            self.stop();
        } else {
            self.elapsed_ms = e;
        }
    }

    /// Returns whether this press is the released-to-pressed transition,
    /// on which the host should start the scene's audio sample.
    pub fn key_pressed(&mut self) -> (fire: bool)
        ensures
            fire == (old(self).key_counter == 0),
            *final(self) == spec_key_pressed(*old(self)),
    {
        let fire: bool = self.key_counter == 0;
        if fire {
            self.invoke();
        }
        if self.key_counter < u32::MAX {
            self.key_counter = self.key_counter + 1;
        }
        fire
    }

    pub fn key_released(&mut self)
        ensures
            *final(self) == (SceneState { key_counter: 0, ..*old(self) }),
    {
        self.key_counter = 0;
    }

    /// Applies a freshly read configuration document. A malformed document
    /// is swallowed: the previous parameters stay in effect, so a bad live
    /// edit never interrupts a running show.
    pub fn on_params_update(&mut self, data: ParamsData)
        ensures
            match toml_size_bits(data@) {
                Some(b) => *final(self) == (SceneState {
                    params: SceneParams { size_bits: b },
                    ..*old(self)
                }),
                None => *final(self) == *old(self),
            },
    {
        match data.get() {
            Some(p) => {
                self.params = p;
            }
            None => {}
        }
    }
}

/// The total of a sequence of frame delta-times, as an unbounded integer.
pub open spec fn sum_of(dts: Seq<u64>) -> int
    decreases dts.len(),
{
    if dts.len() == 0 {
        0
    } else {
        dts[0] + sum_of(dts.skip(1))
    }
}

/// The state after a sequence of `update` calls.
pub open spec fn spec_run_updates(s: SceneState, dts: Seq<u64>) -> SceneState
    decreases dts.len(),
{
    if dts.len() == 0 {
        s
    } else {
        spec_run_updates(spec_update(s, dts[0]), dts.skip(1))
    }
}

/// Updating an inactive scene is a no-op, however long it runs: elapsed
/// time, and everything else, stays unchanged.
pub proof fn lemma_inactive_updates_idle(s: SceneState, dts: Seq<u64>)
    requires
        !s.active,
    ensures
        spec_run_updates(s, dts) == s,
    decreases dts.len(),
{
    if dts.len() > 0 {
        lemma_inactive_updates_idle(s, dts.skip(1));
    }
}

proof fn lemma_active_run_stops(s: SceneState, dts: Seq<u64>)
    requires
        s.active,
        s.threshold_ms < u64::MAX,
        s.elapsed_ms <= s.threshold_ms,
        s.elapsed_ms + sum_of(dts) > s.threshold_ms,
    ensures
        !spec_run_updates(s, dts).active,
        spec_run_updates(s, dts).elapsed_ms == 0,
    decreases dts.len(),
{
    if dts.len() == 0 {
        assert(false);
    } else {
        let s1 = spec_update(s, dts[0]);
        if spec_sat_add_u64(s.elapsed_ms, dts[0]) > s.threshold_ms {
            lemma_inactive_updates_idle(s1, dts.skip(1));
        } else {
            lemma_active_run_stops(s1, dts.skip(1));
        }
    }
}

/// Once a scene has been triggered, any run of updates whose delta-times
/// total more than the scene's threshold leaves it inactive with its
/// elapsed time reset to zero. (This needs a threshold below `u64::MAX`:
/// at exactly `u64::MAX` the saturating elapsed time can never exceed it.)
pub proof fn lemma_auto_stop(s: SceneState, dts: Seq<u64>)
    requires
        s.threshold_ms < u64::MAX,
        sum_of(dts) > s.threshold_ms,
    ensures
        !spec_run_updates(spec_invoke(s), dts).active,
        spec_run_updates(spec_invoke(s), dts).elapsed_ms == 0,
{
    lemma_active_run_stops(spec_invoke(s), dts);
}

} // verus!

