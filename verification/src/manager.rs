use vstd::prelude::*;
use crate::params::{ParamsData, SceneParams, toml_size_bits};
use crate::scene::{SceneState, spec_invoke, spec_key_pressed, spec_stop, spec_update};
use crate::sound::DirtSound;

verus! {

/// One scene with its trigger bindings: the state machine itself, the
/// input keys and sound names that trigger it, and the configuration file
/// (relative to the host's parameter directory) whose changes it follows.
pub struct SceneInstance {
    pub instance: SceneState,
    pub keys: Vec<u32>,
    pub dirt_sounds: Vec<DirtSound>,
    pub param_file: Option<String>,
}

/// Whether this scene is bound to input key `key`.
pub open spec fn has_key(sc: SceneInstance, key: u32) -> bool {
    exists|j: int| 0 <= j < sc.keys@.len() && sc.keys@[j] == key
}

/// Whether this scene is bound to the sound named `name`.
pub open spec fn has_sound(sc: SceneInstance, name: Seq<char>) -> bool {
    exists|j: int| 0 <= j < sc.dirt_sounds@.len() && sc.dirt_sounds@[j]@ == name
}

/// The first index at or after `i` of a scene bound to sound `name`.
pub open spec fn spec_first_sound(s: Seq<SceneInstance>, name: Seq<char>, i: int) -> Option<int>
    decreases s.len() - i,
{
    if i < 0 || i >= s.len() {
        None
    } else if has_sound(s[i], name) {
        Some(i)
    } else {
        spec_first_sound(s, name, i + 1)
    }
}

/// The first index at or after `i` of a scene bound to key `key`.
pub open spec fn spec_first_key(s: Seq<SceneInstance>, key: u32, i: int) -> Option<int>
    decreases s.len() - i,
{
    if i < 0 || i >= s.len() {
        None
    } else if has_key(s[i], key) {
        Some(i)
    } else {
        spec_first_key(s, key, i + 1)
    }
}

impl SceneInstance {
    /// Applies a configuration document to this scene's state machine; the
    /// bindings are untouched, and a malformed document changes nothing.
    pub fn on_params_update(&mut self, data: ParamsData)
        ensures
            match toml_size_bits(data@) {
                Some(b) => *final(self) == (SceneInstance {
                    instance: (SceneState {
                        params: (SceneParams { size_bits: b }),
                        ..old(self).instance
                    }),
                    ..*old(self)
                }),
                None => *final(self) == *old(self),
            },
    {
        self.instance.on_params_update(data);
    }
}

/// The registry of all scenes: it owns every `SceneInstance`, fans out the
/// per-frame update, and dispatches triggers to the scene bound to them.
/// When several scenes share a trigger, the first registered one wins.
pub struct SceneManager {
    scenes: Vec<SceneInstance>,
}

impl View for SceneManager {
    type V = Seq<SceneInstance>;

    closed spec fn view(&self) -> Seq<SceneInstance> {
        self.scenes@
    }
}

impl Default for SceneManager {
    /// A registry with no scenes.
    fn default() -> (r: SceneManager)
        ensures
            r@ == Seq::<SceneInstance>::empty(),
    {
        let r = SceneManager { scenes: Vec::new() };
        proof {
            assert(r@ =~= Seq::<SceneInstance>::empty());
        }
        r
    }
}

impl SceneManager {
    pub fn new(scenes: Vec<SceneInstance>) -> (r: SceneManager)
        ensures
            r@ == scenes@,
    {
        SceneManager { scenes }
    }

    pub fn add_scene(&mut self, scene: SceneInstance)
        ensures
            final(self)@ == old(self)@.push(scene),
    {
        self.scenes.push(scene);
    }

    pub fn scene_count(&self) -> (r: usize)
        ensures
            r == self@.len(),
    {
        self.scenes.len()
    }

    pub fn scene_at(&self, i: usize) -> (r: &SceneInstance)
        requires
            i < self@.len(),
        ensures
            *r == self@[i as int],
    {
        &self.scenes[i]
    }

    /// Triggers every scene.
    #[verifier::loop_isolation(false)]
    pub fn invoke_all(&mut self)
        ensures
            final(self)@.len() == old(self)@.len(),
            forall|k: int|
                0 <= k < old(self)@.len() ==> final(self)@[k] == (SceneInstance {
                    instance: spec_invoke(old(self)@[k].instance),
                    ..old(self)@[k]
                }),
    {
        let n: usize = self.scenes.len();
        let mut i: usize = 0;
        while i < n
            invariant
                i <= n == self.scenes@.len(),
                forall|k: int|
                    0 <= k < i ==> self.scenes@[k] == (SceneInstance {
                        instance: spec_invoke(old(self)@[k].instance),
                        ..old(self)@[k]
                    }),
                forall|k: int| i <= k < n ==> self.scenes@[k] == old(self)@[k],
            decreases n - i,
        {
            self.scenes[i].instance.invoke();
            i = i + 1;
        }
    }

    /// Stops every scene.
    #[verifier::loop_isolation(false)]
    pub fn stop_all(&mut self)
        ensures
            final(self)@.len() == old(self)@.len(),
            forall|k: int|
                0 <= k < old(self)@.len() ==> final(self)@[k] == (SceneInstance {
                    instance: spec_stop(old(self)@[k].instance),
                    ..old(self)@[k]
                }),
    {
        let n: usize = self.scenes.len();
        let mut i: usize = 0;
        while i < n
            invariant
                i <= n == self.scenes@.len(),
                forall|k: int|
                    0 <= k < i ==> self.scenes@[k] == (SceneInstance {
                        instance: spec_stop(old(self)@[k].instance),
                        ..old(self)@[k]
                    }),
                forall|k: int| i <= k < n ==> self.scenes@[k] == old(self)@[k],
            decreases n - i,
        {
            self.scenes[i].instance.stop();
            i = i + 1;
        }
    }

    /// Advances every scene by one frame's delta-time, in registration
    /// order.
    #[verifier::loop_isolation(false)]
    pub fn update_all(&mut self, dt_ms: u64)
        ensures
            final(self)@.len() == old(self)@.len(),
            forall|k: int|
                0 <= k < old(self)@.len() ==> final(self)@[k] == (SceneInstance {
                    instance: spec_update(old(self)@[k].instance, dt_ms),
                    ..old(self)@[k]
                }),
    {
        let n: usize = self.scenes.len();
        let mut i: usize = 0;
        while i < n
            invariant
                i <= n == self.scenes@.len(),
                forall|k: int|
                    0 <= k < i ==> self.scenes@[k] == (SceneInstance {
                        instance: spec_update(old(self)@[k].instance, dt_ms),
                        ..old(self)@[k]
                    }),
                forall|k: int| i <= k < n ==> self.scenes@[k] == old(self)@[k],
            decreases n - i,
        {
            self.scenes[i].instance.update(dt_ms);
            i = i + 1;
        }
    }

    /// The first scene bound to sound `sound`, by registration order.
    #[verifier::loop_isolation(false)]
    pub fn find_by_sound(&self, sound: &DirtSound) -> (r: Option<usize>)
        ensures
            match r {
                Some(i) => spec_first_sound(self@, sound@, 0) == Some(i as int) && i < self@.len(),
                None => spec_first_sound(self@, sound@, 0) is None,
            },
    {
        let n: usize = self.scenes.len();
        let mut i: usize = 0;
        while i < n
            invariant
                i <= n == self@.len(),
                spec_first_sound(self@, sound@, 0) == spec_first_sound(self@, sound@, i as int),
            decreases n - i,
        {
            let sc = &self.scenes[i];
            let mut j: usize = 0;
            let m: usize = sc.dirt_sounds.len();
            let mut found: bool = false;
            while j < m
                invariant
                    j <= m == sc.dirt_sounds@.len(),
                    found == exists|t: int| 0 <= t < j && sc.dirt_sounds@[t]@ == sound@,
                decreases m - j,
            {
                if sc.dirt_sounds[j] == *sound {
                    found = true;
                }
                j = j + 1;
            }
            if found {
                assert(has_sound(self@[i as int], sound@));
                return Some(i);
            }
            assert(!has_sound(self@[i as int], sound@));
            i = i + 1;
        }
        None
    }

    /// The first scene bound to input key `key`, by registration order.
    #[verifier::loop_isolation(false)]
    pub fn find_by_key(&self, key: u32) -> (r: Option<usize>)
        ensures
            match r {
                Some(i) => spec_first_key(self@, key, 0) == Some(i as int) && i < self@.len(),
                None => spec_first_key(self@, key, 0) is None,
            },
    {
        let n: usize = self.scenes.len();
        let mut i: usize = 0;
        while i < n
            invariant
                i <= n == self@.len(),
                spec_first_key(self@, key, 0) == spec_first_key(self@, key, i as int),
            decreases n - i,
        {
            let sc = &self.scenes[i];
            let mut j: usize = 0;
            let m: usize = sc.keys.len();
            let mut found: bool = false;
            while j < m
                invariant
                    j <= m == sc.keys@.len(),
                    found == exists|t: int| 0 <= t < j && sc.keys@[t] == key,
                decreases m - j,
            {
                if sc.keys[j] == key {
                    found = true;
                }
                j = j + 1;
            }
            if found {
                assert(has_key(self@[i as int], key));
                return Some(i);
            }
            assert(!has_key(self@[i as int], key));
            i = i + 1;
        }
        None
    }

    /// The first scene bound to `sound`, if any.
    pub fn get_by_dirt_sound(&self, sound: &DirtSound) -> (r: Option<&SceneInstance>)
        ensures
            match r {
                Some(sc) => spec_first_sound(self@, sound@, 0) matches Some(i) && *sc == self@[i],
                None => spec_first_sound(self@, sound@, 0) is None,
            },
    {
        match self.find_by_sound(sound) {
            Some(i) => Some(&self.scenes[i]),
            None => None,
        }
    }

    /// The first scene bound to `key`, if any.
    pub fn get_by_key(&self, key: u32) -> (r: Option<&SceneInstance>)
        ensures
            match r {
                Some(sc) => spec_first_key(self@, key, 0) matches Some(i) && *sc == self@[i],
                None => spec_first_key(self@, key, 0) is None,
            },
    {
        match self.find_by_key(key) {
            Some(i) => Some(&self.scenes[i]),
            None => None,
        }
    }

    /// Triggers the scene bound to `sound`. A sound bound to no scene is
    /// common and not an error: nothing changes, nothing fails.
    pub fn dispatch_trigger(&mut self, sound: &DirtSound)
        ensures
            match spec_first_sound(old(self)@, sound@, 0) {
                Some(i) => final(self)@ == old(self)@.update(i, (SceneInstance {
                    instance: spec_invoke(old(self)@[i].instance),
                    ..old(self)@[i]
                })),
                None => *final(self) == *old(self),
            },
    {
        match self.find_by_sound(sound) {
            Some(i) => {
                self.scenes[i].instance.invoke();
            },
            None => {},
        }
    }

    /// Routes a pressed key to the scene bound to it; the result says
    /// whether a scene was found and, if so, whether this press is the
    /// released-to-pressed transition on which its sample should play.
    pub fn dispatch_key_pressed(&mut self, key: u32) -> (r: Option<bool>)
        ensures
            match spec_first_key(old(self)@, key, 0) {
                Some(i) => r == Some(old(self)@[i].instance.key_counter == 0) && final(self)@
                    == old(self)@.update(i, (SceneInstance {
                    instance: spec_key_pressed(old(self)@[i].instance),
                    ..old(self)@[i]
                })),
                None => r is None && *final(self) == *old(self),
            },
    {
        match self.find_by_key(key) {
            Some(i) => {
                let fire: bool = self.scenes[i].instance.key_pressed();
                Some(fire)
            },
            None => None,
        }
    }

    /// Routes a released key to the scene bound to it, rearming its
    /// press debounce.
    pub fn dispatch_key_released(&mut self, key: u32)
        ensures
            match spec_first_key(old(self)@, key, 0) {
                Some(i) => final(self)@ == old(self)@.update(i, (SceneInstance {
                    instance: (SceneState { key_counter: 0, ..old(self)@[i].instance }),
                    ..old(self)@[i]
                })),
                None => *final(self) == *old(self),
            },
    {
        match self.find_by_key(key) {
            Some(i) => {
                self.scenes[i].instance.key_released();
            },
            None => {},
        }
    }

    /// Applies a configuration document to the scene at index `i`; its
    /// bindings and every other scene are untouched.
    pub fn on_params_update_at(&mut self, i: usize, data: ParamsData)
        requires
            i < old(self)@.len(),
        ensures
            match toml_size_bits(data@) {
                Some(b) => final(self)@ == old(self)@.update(i as int, (SceneInstance {
                    instance: (SceneState {
                        params: (SceneParams { size_bits: b }),
                        ..old(self)@[i as int].instance
                    }),
                    ..old(self)@[i as int]
                })),
                None => final(self)@ == old(self)@,
            },
    {
        let ghost prev = self.scenes@;
        self.scenes[i].on_params_update(data);
        proof {
            if toml_size_bits(data@) is None {
                assert(final(self)@ =~= prev);
            }
        }
    }
}

/// Builds one scene binding: the auto-stop threshold of its state machine,
/// the keys and sound names that trigger it, and an optional configuration
/// file to follow.
pub struct SceneBuilder {
    pub threshold_ms: u64,
    pub keys: Vec<u32>,
    pub dirt_sound_names: Vec<DirtSound>,
    pub params_file_path: Option<String>,
}

impl SceneBuilder {
    pub fn new(threshold_ms: u64) -> (r: SceneBuilder)
        ensures
            r.threshold_ms == threshold_ms,
            r.keys@ == Seq::<u32>::empty(),
            r.dirt_sound_names@ == Seq::<DirtSound>::empty(),
            r.params_file_path is None,
    {
        let r = SceneBuilder {
            threshold_ms,
            keys: Vec::new(),
            dirt_sound_names: Vec::new(),
            params_file_path: None,
        };
        proof {
            assert(r.keys@ =~= Seq::<u32>::empty());
            assert(r.dirt_sound_names@ =~= Seq::<DirtSound>::empty());
        }
        r
    }

    pub fn key(self, key: u32) -> (r: SceneBuilder)
        ensures
            r.threshold_ms == self.threshold_ms,
            r.keys@ == self.keys@.push(key),
            r.dirt_sound_names@ == self.dirt_sound_names@,
            r.params_file_path == self.params_file_path,
    {
        let mut b = self;
        b.keys.push(key);
        b
    }

    pub fn dirt_sound(self, name: &str) -> (r: SceneBuilder)
        ensures
            r.threshold_ms == self.threshold_ms,
            r.keys@ == self.keys@,
            r.dirt_sound_names@.len() == self.dirt_sound_names@.len() + 1,
            r.dirt_sound_names@.last()@ == name@,
            forall|k: int|
                0 <= k < self.dirt_sound_names@.len() ==> r.dirt_sound_names@[k]
                    == self.dirt_sound_names@[k],
            r.params_file_path == self.params_file_path,
    {
        let mut b = self;
        b.dirt_sound_names.push(DirtSound::new(name));
        b
    }

    pub fn param_file(self, path: &str) -> (r: SceneBuilder)
        ensures
            r.threshold_ms == self.threshold_ms,
            r.keys@ == self.keys@,
            r.dirt_sound_names@ == self.dirt_sound_names@,
            r.params_file_path matches Some(p) && p@ == path@,
    {
        let mut b = self;
        b.params_file_path = Some(path.to_owned());
        b
    }

    /// The finished binding: a fresh, inactive state machine with this
    /// builder's threshold and triggers.
    pub fn build(self) -> (r: SceneInstance)
        ensures
            r.instance == (SceneState {
                active: false,
                elapsed_ms: 0,
                threshold_ms: self.threshold_ms,
                key_counter: 0,
                params: (SceneParams { size_bits: 0 }),
            }),
            r.keys@ == self.keys@,
            r.dirt_sounds@ == self.dirt_sound_names@,
            r.param_file == self.params_file_path,
    {
        SceneInstance {
            instance: SceneState::new(self.threshold_ms),
            keys: self.keys,
            dirt_sounds: self.dirt_sound_names,
            param_file: self.params_file_path,
        }
    }
}

} // verus!
