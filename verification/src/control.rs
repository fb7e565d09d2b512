//! The controller: owns the logical state of scenes, video sources and
//! audio sources, decides which remote operation each surface event
//! requires, and keeps the LED model consistent with confirmed remote
//! state. State is mutated only after the caller reports that the
//! corresponding remote call succeeded, so the lights never show a state
//! the remote has not confirmed.

use std::collections::HashMap;
use vstd::prelude::*;

use crate::apcmini::{apply_cmds, LedCmd, LedState};
use crate::config::{
    spec_audiosource_by_slider, spec_button_by_scene, spec_scene_by_button, spec_source_by_button,
    DeckConfig,
};

verus! {

broadcast use vstd::std_specs::hash::group_hash_axioms;

/// State of a bound audio source, as last confirmed by the remote.
#[derive(Clone, Copy, PartialEq, Eq, Structural, Debug)]
pub enum AudioSourceState {
    Muted,
    Active,
}

/// State of a bound video source, as last confirmed by the remote.
#[derive(Clone, Copy, PartialEq, Eq, Structural, Debug)]
pub enum VideoSourceState {
    Visible,
    Hidden,
}

/// A remote entity: its name and the type tag the remote reports for it.
pub struct Entity {
    pub name: String,
    pub type_tag: String,
}

/// A remote operation the caller must perform. The controller hands one
/// out, the caller invokes it against the remote, and reports success
/// through `Controller::on_remote_success`; only then is local state
/// mutated.
#[derive(Debug)]
pub enum RemoteCall {
    /// Make `scene` the active scene; `btn` is the scene button pressed.
    SetActiveScene { scene: String, btn: u8 },
    /// Show or hide `source` within `scene`; `btn` is the video button
    /// pressed.
    SetItemVisibility { scene: String, source: String, visible: bool, btn: u8 },
    /// Toggle the mute state of `source`; `btn` is the raw slider-button
    /// identifier.
    ToggleMute { source: String, btn: u8 },
    /// Set the volume of `source`; `volume` is the raw slider value,
    /// 0 to 127, which the transport maps linearly onto its decibel range
    /// (0 lowest, 127 unity).
    SetVolume { source: String, volume: u8 },
}

/// Entity-type tags that mark an audio-capable source.
pub open spec fn spec_is_audio_tag(t: Seq<char>) -> bool {
    t == "pulse_input_capture"@ || t == "pulse_output_capture"@
}

/// Entity-type tag that marks a video-capable source.
pub open spec fn spec_is_video_tag(t: Seq<char>) -> bool {
    t == "v4l2_input"@
}

/// Names of the audio-capable entities among `s`, in order.
pub open spec fn spec_audio_entity_names(s: Seq<Entity>) -> Seq<Seq<char>>
    decreases s.len(),
{
    if s.len() == 0 {
        Seq::empty()
    } else if spec_is_audio_tag(s.last().type_tag@) {
        spec_audio_entity_names(s.drop_last()).push(s.last().name@)
    } else {
        spec_audio_entity_names(s.drop_last())
    }
}

/// Names of the video-capable entities among `s`, in order.
pub open spec fn spec_video_entity_names(s: Seq<Entity>) -> Seq<Seq<char>>
    decreases s.len(),
{
    if s.len() == 0 {
        Seq::empty()
    } else if spec_is_video_tag(s.last().type_tag@) {
        spec_video_entity_names(s.drop_last()).push(s.last().name@)
    } else {
        spec_video_entity_names(s.drop_last())
    }
}

/// The character sequences a list of strings holds.
pub open spec fn spec_names(v: Seq<String>) -> Seq<Seq<char>> {
    v.map_values(|s: String| s@)
}

/// Next state after a confirmed mute toggle.
pub open spec fn spec_audio_flip(s: AudioSourceState) -> AudioSourceState {
    match s {
        AudioSourceState::Active => AudioSourceState::Muted,
        AudioSourceState::Muted => AudioSourceState::Active,
    }
}

/// Next state after a confirmed visibility toggle.
pub open spec fn spec_video_flip(s: VideoSourceState) -> VideoSourceState {
    match s {
        VideoSourceState::Visible => VideoSourceState::Hidden,
        VideoSourceState::Hidden => VideoSourceState::Visible,
    }
}

/// Colour a slider-button LED shows for an audio state.
pub open spec fn spec_audio_led(s: AudioSourceState) -> LedState {
    match s {
        AudioSourceState::Active => LedState::Off,
        AudioSourceState::Muted => LedState::Red,
    }
}

/// Colour a video button LED shows for a video state.
pub open spec fn spec_video_led(s: VideoSourceState) -> LedState {
    match s {
        VideoSourceState::Visible => LedState::Yellow,
        VideoSourceState::Hidden => LedState::BlinkYellow,
    }
}

/// Whether `tag` spells exactly the expected type tag.
fn tag_matches(tag: &String, expected: &str) -> (r: bool)
    ensures
        r == (tag@ == expected@),
{
    let e: String = expected.to_string();
    *tag == e
}

/// The controller. Owns the binding table, the source lists the remote
/// reported, the per-control logical states, and a model of what the
/// surface's LEDs currently show.
pub struct Controller {
    config: DeckConfig,
    audio_sources: Vec<String>,
    video_sources: Vec<String>,
    audio_states: HashMap<u8, AudioSourceState>,
    video_states: HashMap<u8, VideoSourceState>,
    current_scene: Option<u8>,
    board: Ghost<Map<u8, LedState>>,
}

impl Controller {
    /// The binding table the controller was built with.
    pub closed spec fn spec_config(&self) -> DeckConfig {
        self.config
    }

    /// The button currently lit as the active scene, if any.
    pub closed spec fn spec_current_scene(&self) -> Option<u8> {
        self.current_scene
    }

    /// The colours the surface's LEDs currently show, as far as this
    /// controller has commanded them.
    pub closed spec fn spec_board(&self) -> Map<u8, LedState> {
        self.board@
    }

    /// Names of the audio-capable sources the remote reported.
    pub closed spec fn spec_audio_sources(&self) -> Seq<Seq<char>> {
        spec_names(self.audio_sources@)
    }

    /// Names of the video-capable sources the remote reported.
    pub closed spec fn spec_video_sources(&self) -> Seq<Seq<char>> {
        spec_names(self.video_sources@)
    }

    /// State of the audio source bound to slider `idx`, if one is known.
    pub closed spec fn spec_audio_state(&self, idx: u8) -> Option<AudioSourceState> {
        if self.audio_states@.contains_key(idx) {
            Some(self.audio_states@[idx])
        } else {
            None
        }
    }

    /// State of the video source bound to button `btn`, if one is known.
    pub closed spec fn spec_video_state(&self, btn: u8) -> Option<VideoSourceState> {
        if self.video_states@.contains_key(btn) {
            Some(self.video_states@[btn])
        } else {
            None
        }
    }

    /// Whether the remote reported a video source called `name`.
    pub open spec fn spec_has_video_source(&self, name: Seq<char>) -> bool {
        self.spec_video_sources().contains(name)
    }

    /// The controller's invariant: the binding table is well formed, the
    /// state tables track exactly the bound identifiers, the current
    /// scene is always a bound scene button, and any LED lit in the
    /// active-scene colour is the current scene's button.
    pub closed spec fn wf(&self) -> bool {
        &&& self.config.wf()
        &&& forall|idx: u8|
            #[trigger] self.audio_states@.contains_key(idx) <==> spec_audiosource_by_slider(
                self.config.bindings.audio@,
                idx,
            ) is Some
        &&& forall|b: u8|
            #[trigger] self.video_states@.contains_key(b) <==> spec_source_by_button(
                self.config.bindings.sources@,
                b,
            ) is Some
        &&& match self.current_scene {
            Some(b) => spec_scene_by_button(self.config.bindings.scenes@, b) is Some,
            None => true,
        }
        &&& forall|l: u8|
            self.board@.contains_key(l) && #[trigger] self.board@[l] == LedState::Green
                ==> self.current_scene == Some(l) && spec_scene_by_button(
                self.config.bindings.scenes@,
                l,
            ) is Some
    }

    /// State of the audio source bound to slider `idx`, if one is known.
    pub fn audio_state(&self, idx: u8) -> (r: Option<AudioSourceState>)
        ensures
            r == self.spec_audio_state(idx),
    {
        match self.audio_states.get(&idx) {
            Some(s) => Some(*s),
            None => None,
        }
    }

    /// State of the video source bound to button `btn`, if one is known.
    pub fn video_state(&self, btn: u8) -> (r: Option<VideoSourceState>)
        ensures
            r == self.spec_video_state(btn),
    {
        match self.video_states.get(&btn) {
            Some(s) => Some(*s),
            None => None,
        }
    }

    /// The button currently lit as the active scene, if any.
    pub fn current_scene_button(&self) -> (r: Option<u8>)
        ensures
            r == self.spec_current_scene(),
    {
        self.current_scene
    }

    /// Whether the remote reported a video source called `name`.
    fn has_video_source(&self, name: &String) -> (r: bool)
        ensures
            r == self.spec_has_video_source(name@),
    {
        let mut i: usize = 0;
        while i < self.video_sources.len()
            invariant
                i <= self.video_sources@.len(),
                forall|k: int| 0 <= k < i ==> self.video_sources@[k]@ != name@,
            decreases self.video_sources@.len() - i,
        {
            if self.video_sources[i] == *name {
                proof {
                    assert(self.spec_video_sources()[i as int] == name@);
                }
                return true;
            }
            i = i + 1;
        }
        proof {
            assert forall|k: int| 0 <= k < self.spec_video_sources().len() implies self
                .spec_video_sources()[k] != name@ by {
                assert(self.spec_video_sources()[k] == self.video_sources@[k]@);
            }
        }
        false
    }
}

/// The defensive reset: every grid LED switched off.
pub open spec fn spec_reset_cmds() -> Seq<LedCmd> {
    Seq::new(64, |i: int| LedCmd { led: i as u8, state: LedState::Off })
}

/// Every bound scene button lit in the selectable colour.
pub open spec fn spec_scene_cmds(s: Seq<crate::config::SceneBinding>) -> Seq<LedCmd> {
    s.map_values(|b: crate::config::SceneBinding| LedCmd { led: b.button, state: LedState::Red })
}

/// Every bound slider-button LED switched off.
pub open spec fn spec_audio_cmds(s: Seq<crate::config::AudioBinding>) -> Seq<LedCmd> {
    s.map_values(
        |b: crate::config::AudioBinding|
            LedCmd { led: (b.slider + 64) as u8, state: LedState::Off },
    )
}

/// Every bound video button lit in the visible colour.
pub open spec fn spec_video_cmds(s: Seq<crate::config::SourceBinding>) -> Seq<LedCmd> {
    s.map_values(
        |b: crate::config::SourceBinding| LedCmd { led: b.button, state: LedState::Yellow },
    )
}

/// The whole LED output of construction: reset, scene colours, audio
/// colours, video colours, then the active scene's button, if any.
pub open spec fn spec_init_cmds(config: DeckConfig, scene_btn: Option<u8>) -> Seq<LedCmd> {
    spec_reset_cmds() + spec_scene_cmds(config.bindings.scenes@) + spec_audio_cmds(
        config.bindings.audio@,
    ) + spec_video_cmds(config.bindings.sources@) + match scene_btn {
        Some(b) => seq![LedCmd { led: b, state: LedState::Green }],
        None => Seq::<LedCmd>::empty(),
    }
}

/// The name a reported scene carries, if one was reported.
pub open spec fn spec_opt_name(o: Option<String>) -> Option<Seq<char>> {
    match o {
        Some(s) => Some(s@),
        None => None,
    }
}

/// The button that starts lit as the active scene: the one bound to the
/// scene the remote reported, if there is one.
pub open spec fn spec_initial_scene(config: DeckConfig, reported: Option<Seq<char>>) -> Option<
    u8,
> {
    match reported {
        Some(name) => spec_button_by_scene(config.bindings.scenes@, name),
        None => None,
    }
}

impl Controller {
    /// Builds a controller from the binding table, the entities the
    /// remote listed, and the scene it reported active (if that query
    /// succeeded and a binding matched). Returns the controller together
    /// with the LED updates that bring the surface in line with it: a
    /// full reset, then one colour per binding, then the active scene's
    /// button.
    pub fn new(config: DeckConfig, entities: Vec<Entity>, active_scene: Option<String>) -> (r: (
        Controller,
        Vec<LedCmd>,
    ))
        requires
            config.wf(),
        ensures
            ({
                let c = r.0;
                let cmds = r.1;
                &&& c.wf()
                &&& c.spec_config() == config
                &&& c.spec_current_scene() == spec_initial_scene(config, spec_opt_name(active_scene))
                &&& c.spec_audio_sources() == spec_audio_entity_names(entities@)
                &&& c.spec_video_sources() == spec_video_entity_names(entities@)
                &&& forall|idx: u8|
                    c.spec_audio_state(idx) == (if spec_audiosource_by_slider(
                        config.bindings.audio@,
                        idx,
                    ) is Some {
                        Some(AudioSourceState::Active)
                    } else {
                        Option::<AudioSourceState>::None
                    })
                &&& forall|b: u8|
                    c.spec_video_state(b) == (if spec_source_by_button(
                        config.bindings.sources@,
                        b,
                    ) is Some {
                        Some(VideoSourceState::Visible)
                    } else {
                        Option::<VideoSourceState>::None
                    })
                &&& cmds@ == spec_init_cmds(config, c.spec_current_scene())
                &&& c.spec_board() == apply_cmds(Map::<u8, LedState>::empty(), cmds@)
            }),
    {
        // Classify the remote's entities into audio and video sources.
        let mut audio_sources: Vec<String> = Vec::new();
        let mut video_sources: Vec<String> = Vec::new();
        proof {
            assert(spec_names(audio_sources@) =~= spec_audio_entity_names(entities@.take(0)));
            assert(spec_names(video_sources@) =~= spec_video_entity_names(entities@.take(0)));
        }
        let mut i: usize = 0;
        while i < entities.len()
            invariant
                i <= entities@.len(),
                spec_names(audio_sources@) == spec_audio_entity_names(entities@.take(i as int)),
                spec_names(video_sources@) == spec_video_entity_names(entities@.take(i as int)),
            decreases entities@.len() - i,
        {
            proof {
                assert(entities@.take(i as int + 1).drop_last() =~= entities@.take(i as int));
                assert(entities@.take(i as int + 1).last() == entities@[i as int]);
            }
            let e = &entities[i];
            let ghost pre_a = audio_sources@;
            let ghost pre_v = video_sources@;
            if tag_matches(&e.type_tag, "pulse_input_capture") || tag_matches(
                &e.type_tag,
                "pulse_output_capture",
            ) {
                audio_sources.push(e.name.clone());
                proof {
                    assert(spec_names(audio_sources@) =~= spec_names(pre_a).push(e.name@));
                }
            }
            if tag_matches(&e.type_tag, "v4l2_input") {
                video_sources.push(e.name.clone());
                proof {
                    assert(spec_names(video_sources@) =~= spec_names(pre_v).push(e.name@));
                }
            }
            i = i + 1;
        }
        proof {
            assert(entities@.take(entities@.len() as int) =~= entities@);
        }
        // Defensive reset: extinguish every grid LED.
        let mut cmds: Vec<LedCmd> = Vec::new();
        let ghost mut bmap: Map<u8, LedState> = Map::empty();
        let mut led: u8 = 0;
        proof {
            assert(cmds@ =~= spec_reset_cmds().take(0));
        }
        while led < 64
            invariant
                led <= 64,
                cmds@ == spec_reset_cmds().take(led as int),
                bmap == apply_cmds(Map::<u8, LedState>::empty(), cmds@),
                forall|l: u8| #![auto] bmap.contains_key(l) ==> bmap[l] != LedState::Green,
            decreases 64 - led,
        {
            let ghost pre = cmds@;
            let c = LedCmd { led, state: LedState::Off };
            cmds.push(c);
            proof {
                crate::apcmini::lemma_apply_cmds_push(Map::<u8, LedState>::empty(), pre, c);
                bmap = bmap.insert(c.led, c.state);
                assert(cmds@ =~= spec_reset_cmds().take(led as int + 1));
            }
            led = led + 1;
        }
        proof {
            assert(spec_reset_cmds().take(64) =~= spec_reset_cmds());
        }
        // Light every bound scene button in the selectable colour.
        let mut i: usize = 0;
        proof {
            assert(spec_scene_cmds(config.bindings.scenes@.take(0)) =~= Seq::<LedCmd>::empty());
            assert(cmds@ =~= spec_reset_cmds() + spec_scene_cmds(config.bindings.scenes@.take(0)));
        }
        while i < config.bindings.scenes.len()
            invariant
                i <= config.bindings.scenes@.len(),
                cmds@ == spec_reset_cmds() + spec_scene_cmds(config.bindings.scenes@.take(i as int)),
                bmap == apply_cmds(Map::<u8, LedState>::empty(), cmds@),
                forall|l: u8| #![auto] bmap.contains_key(l) ==> bmap[l] != LedState::Green,
            decreases config.bindings.scenes@.len() - i,
        {
            let ghost pre = cmds@;
            let c = LedCmd { led: config.bindings.scenes[i].button, state: LedState::Red };
            cmds.push(c);
            proof {
                crate::apcmini::lemma_apply_cmds_push(Map::<u8, LedState>::empty(), pre, c);
                bmap = bmap.insert(c.led, c.state);
                assert(cmds@ =~= spec_reset_cmds() + spec_scene_cmds(
                    config.bindings.scenes@.take(i as int + 1),
                ));
            }
            i = i + 1;
        }
        proof {
            assert(config.bindings.scenes@.take(config.bindings.scenes@.len() as int)
                =~= config.bindings.scenes@);
        }
        // Extinguish every bound slider-button LED; all audio starts active.
        let mut audio_states: HashMap<u8, AudioSourceState> = HashMap::new();
        let mut i: usize = 0;
        proof {
            assert(spec_audio_cmds(config.bindings.audio@.take(0)) =~= Seq::<LedCmd>::empty());
            assert(cmds@ =~= spec_reset_cmds() + spec_scene_cmds(config.bindings.scenes@)
                + spec_audio_cmds(config.bindings.audio@.take(0)));
        }
        while i < config.bindings.audio.len()
            invariant
                i <= config.bindings.audio@.len(),
                config.wf(),
                cmds@ == spec_reset_cmds() + spec_scene_cmds(config.bindings.scenes@)
                    + spec_audio_cmds(config.bindings.audio@.take(i as int)),
                bmap == apply_cmds(Map::<u8, LedState>::empty(), cmds@),
                forall|l: u8| #![auto] bmap.contains_key(l) ==> bmap[l] != LedState::Green,
                forall|idx: u8|
                    #[trigger] audio_states@.contains_key(idx) <==> exists|k: int|
                        0 <= k < i && config.bindings.audio@[k].slider == idx,
                forall|idx: u8| #![auto]
                    audio_states@.contains_key(idx) ==> audio_states@[idx]
                        == AudioSourceState::Active,
            decreases config.bindings.audio@.len() - i,
        {
            let ghost pre = cmds@;
            let slider = config.bindings.audio[i].slider;
            let c = LedCmd { led: slider + 64, state: LedState::Off };
            cmds.push(c);
            audio_states.insert(slider, AudioSourceState::Active);
            proof {
                crate::apcmini::lemma_apply_cmds_push(Map::<u8, LedState>::empty(), pre, c);
                bmap = bmap.insert(c.led, c.state);
                assert(cmds@ =~= spec_reset_cmds() + spec_scene_cmds(config.bindings.scenes@)
                    + spec_audio_cmds(config.bindings.audio@.take(i as int + 1)));
            }
            i = i + 1;
        }
        proof {
            assert(config.bindings.audio@.take(config.bindings.audio@.len() as int)
                =~= config.bindings.audio@);
        }
        // Light every bound video button; all video starts visible.
        let mut video_states: HashMap<u8, VideoSourceState> = HashMap::new();
        let mut i: usize = 0;
        proof {
            assert(spec_video_cmds(config.bindings.sources@.take(0)) =~= Seq::<LedCmd>::empty());
            assert(cmds@ =~= spec_reset_cmds() + spec_scene_cmds(config.bindings.scenes@)
                + spec_audio_cmds(config.bindings.audio@) + spec_video_cmds(
                config.bindings.sources@.take(0),
            ));
        }
        while i < config.bindings.sources.len()
            invariant
                i <= config.bindings.sources@.len(),
                cmds@ == spec_reset_cmds() + spec_scene_cmds(config.bindings.scenes@)
                    + spec_audio_cmds(config.bindings.audio@) + spec_video_cmds(
                    config.bindings.sources@.take(i as int),
                ),
                bmap == apply_cmds(Map::<u8, LedState>::empty(), cmds@),
                forall|l: u8| #![auto] bmap.contains_key(l) ==> bmap[l] != LedState::Green,
                forall|b: u8|
                    #[trigger] video_states@.contains_key(b) <==> exists|k: int|
                        0 <= k < i && config.bindings.sources@[k].button == b,
                forall|b: u8| #![auto]
                    video_states@.contains_key(b) ==> video_states@[b]
                        == VideoSourceState::Visible,
            decreases config.bindings.sources@.len() - i,
        {
            let ghost pre = cmds@;
            let button = config.bindings.sources[i].button;
            let c = LedCmd { led: button, state: LedState::Yellow };
            cmds.push(c);
            video_states.insert(button, VideoSourceState::Visible);
            proof {
                crate::apcmini::lemma_apply_cmds_push(Map::<u8, LedState>::empty(), pre, c);
                bmap = bmap.insert(c.led, c.state);
                assert(cmds@ =~= spec_reset_cmds() + spec_scene_cmds(config.bindings.scenes@)
                    + spec_audio_cmds(config.bindings.audio@) + spec_video_cmds(
                    config.bindings.sources@.take(i as int + 1),
                ));
            }
            i = i + 1;
        }
        proof {
            assert(config.bindings.sources@.take(config.bindings.sources@.len() as int)
                =~= config.bindings.sources@);
        }
        // Ask which scene is active; if it maps to a bound button, light it.
        let current_scene: Option<u8> = match &active_scene {
            Some(name) => config.get_button_by_scene(name.clone()),
            None => None,
        };
        let ghost pre_final = cmds@;
        if let Some(btn) = current_scene {
            let c = LedCmd { led: btn, state: LedState::Green };
            cmds.push(c);
            proof {
                crate::apcmini::lemma_apply_cmds_push(Map::<u8, LedState>::empty(), pre_final, c);
                bmap = bmap.insert(c.led, c.state);
                assert(cmds@ =~= pre_final + seq![c]);
                crate::config::lemma_button_by_scene_is_bound(
                    config.bindings.scenes@,
                    spec_opt_name(active_scene)->Some_0,
                );
            }
        } else {
            proof {
                assert(cmds@ =~= pre_final + Seq::<LedCmd>::empty());
            }
        }
        let controller = Controller {
            config,
            audio_sources,
            video_sources,
            audio_states,
            video_states,
            current_scene,
            board: Ghost(bmap),
        };
        proof {
            assert forall|idx: u8| #[trigger]
                controller.audio_states@.contains_key(idx) <==> spec_audiosource_by_slider(
                    controller.config.bindings.audio@,
                    idx,
                ) is Some by {
                crate::config::lemma_audiosource_by_slider_exists(
                    controller.config.bindings.audio@,
                    idx,
                );
            }
            assert forall|b: u8| #[trigger]
                controller.video_states@.contains_key(b) <==> spec_source_by_button(
                    controller.config.bindings.sources@,
                    b,
                ) is Some by {
                crate::config::lemma_source_by_button_exists(
                    controller.config.bindings.sources@,
                    b,
                );
            }
        }
        (controller, cmds)
    }
}

/// `r` is exactly the visibility call the controller's plan demands for
/// source `src` on button `btn` — or nothing, when no call is due.
pub open spec fn spec_matches_video_plan(
    r: Option<RemoteCall>,
    c: Controller,
    src: Seq<char>,
    btn: u8,
) -> bool {
    match c.spec_video_plan(src, btn) {
        Some(plan) => r matches Some(call) && (call matches RemoteCall::SetItemVisibility {
            scene,
            source,
            visible,
            btn: b,
        } && scene@ == plan.0 && source@ == src && visible == plan.1 && b == btn),
        None => r is None,
    }
}

impl Controller {
    /// The visibility request a press on video button `btn` should issue
    /// for source `src`, if any: the current scene's name, and whether
    /// the call asks the source to become visible (it does exactly when
    /// the source is currently hidden).
    pub open spec fn spec_video_plan(&self, src: Seq<char>, btn: u8) -> Option<
        (Seq<char>, bool),
    > {
        if self.spec_has_video_source(src) {
            match self.spec_current_scene() {
                Some(cs) => match spec_scene_by_button(self.spec_config().bindings.scenes@, cs) {
                    Some(scene_name) => match self.spec_video_state(btn) {
                        Some(st) => Some((scene_name, st is Hidden)),
                        None => None,
                    },
                    None => None,
                },
                None => None,
            }
        } else {
            None
        }
    }

    /// A scene switch: the previously active button (if any) is relit in
    /// the selectable colour at once, the pressed button becomes the
    /// current scene, and the remote call to activate `scene` is handed
    /// out. The pressed button's LED is not touched here: it turns green
    /// only once the remote confirms, through `on_remote_success`.
    pub fn switch_to_scene(&mut self, scene: String, btn_id: u8) -> (r: (
        Vec<LedCmd>,
        Option<RemoteCall>,
    ))
        requires
            old(self).wf(),
            spec_scene_by_button(old(self).spec_config().bindings.scenes@, btn_id) is Some,
        ensures
            final(self).wf(),
            final(self).spec_config() == old(self).spec_config(),
            final(self).spec_audio_sources() == old(self).spec_audio_sources(),
            final(self).spec_video_sources() == old(self).spec_video_sources(),
            forall|x: u8| final(self).spec_audio_state(x) == old(self).spec_audio_state(x),
            forall|x: u8| final(self).spec_video_state(x) == old(self).spec_video_state(x),
            final(self).spec_current_scene() == Some(btn_id),
            r.0@ == (match old(self).spec_current_scene() {
                Some(prev) => seq![LedCmd { led: prev, state: LedState::Red }],
                None => Seq::<LedCmd>::empty(),
            }),
            final(self).spec_board() == apply_cmds(old(self).spec_board(), r.0@),
            r.1 matches Some(c) && (c matches RemoteCall::SetActiveScene { scene: s, btn }
                && s@ == scene@ && btn == btn_id),
    {
        let mut cmds: Vec<LedCmd> = Vec::new();
        match self.current_scene {
            Some(prev) => {
                let c = LedCmd { led: prev, state: LedState::Red };
                cmds.push(c);
                self.board = Ghost(self.board@.insert(c.led, c.state));
                proof {
                    crate::apcmini::lemma_apply_cmds_push(
                        old(self).spec_board(),
                        Seq::<LedCmd>::empty(),
                        c,
                    );
                    assert(cmds@ =~= Seq::<LedCmd>::empty().push(c));
                }
            },
            None => {},
        }
        self.current_scene = Some(btn_id);
        (cmds, Some(RemoteCall::SetActiveScene { scene, btn: btn_id }))
    }

    /// A video-source toggle request: hands out the visibility call the
    /// press demands, if the source is known, a scene is current and the
    /// button's state is tracked. Nothing is mutated: state and LED move
    /// only once the remote confirms, through `on_remote_success`.
    pub fn toggle_video_source(&mut self, source: String, btn_id: u8) -> (r: Option<RemoteCall>)
        requires
            old(self).wf(),
        ensures
            *final(self) == *old(self),
            final(self).wf(),
            spec_matches_video_plan(r, *old(self), source@, btn_id),
    {
        if self.has_video_source(&source) && self.current_scene.is_some() {
            let cs = self.current_scene.unwrap();
            if let Some(scene_name) = self.config.get_scene_by_button(cs) {
                if let Some(st) = self.video_state(btn_id) {
                    let visible = st == VideoSourceState::Hidden;
                    return Some(
                        RemoteCall::SetItemVisibility {
                            scene: scene_name,
                            source,
                            visible,
                            btn: btn_id,
                        },
                    );
                }
            }
        }
        None
    }

    /// A mute-toggle request: hands out the call whenever the slider
    /// index is tracked, regardless of the source's current state.
    /// Nothing is mutated until the remote confirms.
    pub fn toggle_audio_source(&mut self, audio_source: String, btn_id: u8) -> (r: Option<
        RemoteCall,
    >)
        requires
            old(self).wf(),
            btn_id >= 64,
        ensures
            *final(self) == *old(self),
            final(self).wf(),
            (r is Some) == (old(self).spec_audio_state((btn_id - 64) as u8) is Some),
            r matches Some(c) ==> (c matches RemoteCall::ToggleMute { source, btn } && source@
                == audio_source@ && btn == btn_id),
    {
        let idx = btn_id - 64;
        if self.audio_state(idx).is_some() {
            Some(RemoteCall::ToggleMute { source: audio_source, btn: btn_id })
        } else {
            None
        }
    }

    /// A volume request: always hands out the call, with the raw slider
    /// value; the transport maps it onto the decibel range. No state or
    /// LED is involved.
    pub fn set_volume(&mut self, audio_source: String, volume: u8) -> (r: Option<RemoteCall>)
        ensures
            *final(self) == *old(self),
            r matches Some(c) && (c matches RemoteCall::SetVolume { source, volume: v } && source@
                == audio_source@ && v == volume),
    {
        Some(RemoteCall::SetVolume { source: audio_source, volume })
    }

    /// Dispatch for a grid-button press: a scene binding makes it a scene
    /// switch, a video binding a visibility toggle, anything else a
    /// silent no-op.
    pub fn on_button_press(&mut self, btn_id: u8) -> (r: (Vec<LedCmd>, Option<RemoteCall>))
        requires
            old(self).wf(),
        ensures
            final(self).wf(),
            final(self).spec_config() == old(self).spec_config(),
            final(self).spec_audio_sources() == old(self).spec_audio_sources(),
            final(self).spec_video_sources() == old(self).spec_video_sources(),
            forall|x: u8| final(self).spec_audio_state(x) == old(self).spec_audio_state(x),
            forall|x: u8| final(self).spec_video_state(x) == old(self).spec_video_state(x),
            final(self).spec_board() == apply_cmds(old(self).spec_board(), r.0@),
            match spec_scene_by_button(old(self).spec_config().bindings.scenes@, btn_id) {
                Some(scene_name) => {
                    &&& final(self).spec_current_scene() == Some(btn_id)
                    &&& r.0@ == (match old(self).spec_current_scene() {
                        Some(prev) => seq![LedCmd { led: prev, state: LedState::Red }],
                        None => Seq::<LedCmd>::empty(),
                    })
                    &&& r.1 matches Some(c) && (c matches RemoteCall::SetActiveScene {
                        scene,
                        btn,
                    } && scene@ == scene_name && btn == btn_id)
                },
                None => {
                    &&& final(self).spec_current_scene() == old(self).spec_current_scene()
                    &&& r.0@ == Seq::<LedCmd>::empty()
                    &&& match spec_source_by_button(
                        old(self).spec_config().bindings.sources@,
                        btn_id,
                    ) {
                        Some(src) => spec_matches_video_plan(r.1, *old(self), src, btn_id),
                        None => r.1 is None,
                    }
                },
            },
    {
        let scene = self.config.get_scene_by_button(btn_id);
        if let Some(scene) = scene {
            self.switch_to_scene(scene, btn_id)
        } else {
            if let Some(source) = self.config.get_source_by_button(btn_id) {
                let call = self.toggle_video_source(source, btn_id);
                (Vec::new(), call)
            } else {
                (Vec::new(), None)
            }
        }
    }

    /// Dispatch for a slider-button press: exactly one mute toggle is
    /// handed out whenever the button maps to a bound audio index,
    /// whatever the source's current state; an unbound button is a
    /// silent no-op.
    pub fn on_slider_btn_press(&mut self, btn_id: u8) -> (r: Option<RemoteCall>)
        requires
            old(self).wf(),
            btn_id >= 64,
        ensures
            *final(self) == *old(self),
            final(self).wf(),
            (r is Some) == (spec_audiosource_by_slider(
                old(self).spec_config().bindings.audio@,
                (btn_id - 64) as u8,
            ) is Some),
            r matches Some(c) ==> (c matches RemoteCall::ToggleMute { source, btn } && Some(
                source@,
            ) == spec_audiosource_by_slider(
                old(self).spec_config().bindings.audio@,
                (btn_id - 64) as u8,
            ) && btn == btn_id),
    {
        let slider_id = btn_id - 64;
        let audio_source = self.config.get_audiosource_by_slider(slider_id);
        if let Some(audio_source) = audio_source {
            self.toggle_audio_source(audio_source, btn_id)
        } else {
            None
        }
    }

    /// Dispatch for a slider move: a volume call for the bound audio
    /// source, with the raw slider value; an unbound slider is a silent
    /// no-op. The slider identifier arrives already 0-based from the
    /// decoder.
    pub fn on_slider_change(&mut self, slider_id: u8, slider_value: u8) -> (r: Option<
        RemoteCall,
    >)
        requires
            old(self).wf(),
        ensures
            *final(self) == *old(self),
            final(self).wf(),
            (r is Some) == (spec_audiosource_by_slider(
                old(self).spec_config().bindings.audio@,
                slider_id,
            ) is Some),
            r matches Some(c) ==> (c matches RemoteCall::SetVolume { source, volume } && Some(
                source@,
            ) == spec_audiosource_by_slider(old(self).spec_config().bindings.audio@, slider_id)
                && volume == slider_value),
    {
        let audio_source = self.config.get_audiosource_by_slider(slider_id);
        if let Some(name) = audio_source {
            self.set_volume(name, slider_value)
        } else {
            None
        }
    }
}

/// Next state after a confirmed mute toggle.
fn audio_flip(s: AudioSourceState) -> (r: AudioSourceState)
    ensures
        r == spec_audio_flip(s),
{
    match s {
        AudioSourceState::Active => AudioSourceState::Muted,
        AudioSourceState::Muted => AudioSourceState::Active,
    }
}

/// Next state after a confirmed visibility toggle.
fn video_flip(s: VideoSourceState) -> (r: VideoSourceState)
    ensures
        r == spec_video_flip(s),
{
    match s {
        VideoSourceState::Visible => VideoSourceState::Hidden,
        VideoSourceState::Hidden => VideoSourceState::Visible,
    }
}

/// Colour a slider-button LED shows for an audio state.
fn audio_led(s: AudioSourceState) -> (r: LedState)
    ensures
        r == spec_audio_led(s),
{
    match s {
        AudioSourceState::Active => LedState::Off,
        AudioSourceState::Muted => LedState::Red,
    }
}

/// Colour a video button LED shows for a video state.
fn video_led(s: VideoSourceState) -> (r: LedState)
    ensures
        r == spec_video_led(s),
{
    match s {
        VideoSourceState::Visible => LedState::Yellow,
        VideoSourceState::Hidden => LedState::BlinkYellow,
    }
}

impl Controller {
    /// Commit after the remote confirmed `call`: flip the state the call
    /// was about and hand back the LED updates that show it. A call that
    /// no longer matches the controller's state changes nothing. Local
    /// state and LEDs move only here — never on a failed call, so the
    /// surface never shows a state the remote has not confirmed.
    pub fn on_remote_success(&mut self, call: &RemoteCall) -> (r: Vec<LedCmd>)
        requires
            old(self).wf(),
        ensures
            final(self).wf(),
            final(self).spec_config() == old(self).spec_config(),
            final(self).spec_audio_sources() == old(self).spec_audio_sources(),
            final(self).spec_video_sources() == old(self).spec_video_sources(),
            final(self).spec_current_scene() == old(self).spec_current_scene(),
            final(self).spec_board() == apply_cmds(old(self).spec_board(), r@),
            match *call {
                RemoteCall::SetActiveScene { scene: _, btn } => {
                    &&& forall|x: u8|
                        final(self).spec_audio_state(x) == old(self).spec_audio_state(x)
                    &&& forall|x: u8|
                        final(self).spec_video_state(x) == old(self).spec_video_state(x)
                    &&& r@ == (if old(self).spec_current_scene() == Some(btn)
                        && spec_scene_by_button(
                        old(self).spec_config().bindings.scenes@,
                        btn,
                    ) is Some {
                        seq![LedCmd { led: btn, state: LedState::Green }]
                    } else {
                        Seq::<LedCmd>::empty()
                    })
                },
                RemoteCall::SetItemVisibility { scene: _, source: _, visible: _, btn } => {
                    &&& forall|x: u8|
                        final(self).spec_audio_state(x) == old(self).spec_audio_state(x)
                    &&& match old(self).spec_video_state(btn) {
                        Some(st) => {
                            &&& forall|x: u8|
                                final(self).spec_video_state(x) == (if x == btn {
                                    Some(spec_video_flip(st))
                                } else {
                                    old(self).spec_video_state(x)
                                })
                            &&& r@ == seq![
                                LedCmd { led: btn, state: spec_video_led(spec_video_flip(st)) },
                            ]
                        },
                        None => {
                            &&& forall|x: u8|
                                final(self).spec_video_state(x) == old(self).spec_video_state(x)
                            &&& r@ == Seq::<LedCmd>::empty()
                        },
                    }
                },
                RemoteCall::ToggleMute { source: _, btn } => {
                    &&& forall|x: u8|
                        final(self).spec_video_state(x) == old(self).spec_video_state(x)
                    &&& if btn >= 64 && old(self).spec_audio_state((btn - 64) as u8) is Some {
                        let st = old(self).spec_audio_state((btn - 64) as u8)->Some_0;
                        &&& forall|x: u8|
                            final(self).spec_audio_state(x) == (if x == (btn - 64) as u8 {
                                Some(spec_audio_flip(st))
                            } else {
                                old(self).spec_audio_state(x)
                            })
                        &&& r@ == seq![
                            LedCmd { led: btn, state: spec_audio_led(spec_audio_flip(st)) },
                        ]
                    } else {
                        &&& forall|x: u8|
                            final(self).spec_audio_state(x) == old(self).spec_audio_state(x)
                        &&& r@ == Seq::<LedCmd>::empty()
                    }
                },
                RemoteCall::SetVolume { .. } => {
                    &&& *final(self) == *old(self)
                    &&& r@ == Seq::<LedCmd>::empty()
                },
            },
    {
        match call {
            RemoteCall::SetActiveScene { scene: _, btn } => {
                let btn = *btn;
                let is_current = match self.current_scene {
                    Some(cs) => cs == btn,
                    None => false,
                };
                if is_current && self.config.get_scene_by_button(btn).is_some() {
                    let c = LedCmd { led: btn, state: LedState::Green };
                    self.board = Ghost(self.board@.insert(c.led, c.state));
                    let mut v: Vec<LedCmd> = Vec::new();
                    v.push(c);
                    proof {
                        crate::apcmini::lemma_apply_cmds_push(
                            old(self).spec_board(),
                            Seq::<LedCmd>::empty(),
                            c,
                        );
                        assert(v@ =~= Seq::<LedCmd>::empty().push(c));
                    }
                    v
                } else {
                    Vec::new()
                }
            },
            RemoteCall::SetItemVisibility { scene: _, source: _, visible: _, btn } => {
                let btn = *btn;
                match self.video_state(btn) {
                    Some(st) => {
                        let ns = video_flip(st);
                        self.video_states.insert(btn, ns);
                        let c = LedCmd { led: btn, state: video_led(ns) };
                        self.board = Ghost(self.board@.insert(c.led, c.state));
                        let mut v: Vec<LedCmd> = Vec::new();
                        v.push(c);
                        proof {
                            crate::apcmini::lemma_apply_cmds_push(
                                old(self).spec_board(),
                                Seq::<LedCmd>::empty(),
                                c,
                            );
                            assert(v@ =~= Seq::<LedCmd>::empty().push(c));
                        }
                        v
                    },
                    None => Vec::new(),
                }
            },
            RemoteCall::ToggleMute { source: _, btn } => {
                let btn = *btn;
                if btn >= 64 {
                    let idx = btn - 64;
                    match self.audio_state(idx) {
                        Some(st) => {
                            let ns = audio_flip(st);
                            self.audio_states.insert(idx, ns);
                            let c = LedCmd { led: btn, state: audio_led(ns) };
                            self.board = Ghost(self.board@.insert(c.led, c.state));
                            let mut v: Vec<LedCmd> = Vec::new();
                            v.push(c);
                            proof {
                                crate::apcmini::lemma_apply_cmds_push(
                                    old(self).spec_board(),
                                    Seq::<LedCmd>::empty(),
                                    c,
                                );
                                assert(v@ =~= Seq::<LedCmd>::empty().push(c));
                            }
                            v
                        },
                        None => Vec::new(),
                    }
                } else {
                    Vec::new()
                }
            },
            RemoteCall::SetVolume { .. } => Vec::new(),
        }
    }
}

/// Bringing a controller up twice in a row against the same binding table
/// and the same reported remote scene yields identical LED output both
/// times: construction's output is a function of those two inputs alone.
pub proof fn lemma_init_led_output_deterministic(
    config: DeckConfig,
    reported: Option<Seq<char>>,
    cmds1: Seq<LedCmd>,
    cmds2: Seq<LedCmd>,
)
    requires
        cmds1 == spec_init_cmds(config, spec_initial_scene(config, reported)),
        cmds2 == spec_init_cmds(config, spec_initial_scene(config, reported)),
    ensures
        cmds1 == cmds2,
{
}

/// Whether a slider-button press demands a mute toggle depends only on
/// the binding table, never on the source's current state: two
/// controllers sharing a table agree, whatever states their sources are
/// in.
pub proof fn lemma_mute_decision_ignores_state(a: &Controller, b: &Controller, btn_id: u8)
    requires
        a.wf(),
        b.wf(),
        btn_id >= 64,
        a.spec_config() == b.spec_config(),
    ensures
        (a.spec_audio_state((btn_id - 64) as u8) is Some) == (b.spec_audio_state(
            (btn_id - 64) as u8,
        ) is Some),
{
}

/// At any time, at most one LED is lit in the active-scene colour: two
/// LEDs both showing it must be the same button.
pub proof fn lemma_single_active_scene(c: &Controller, b1: u8, b2: u8)
    requires
        c.wf(),
        c.spec_board().contains_key(b1),
        c.spec_board()[b1] == LedState::Green,
        c.spec_board().contains_key(b2),
        c.spec_board()[b2] == LedState::Green,
    ensures
        b1 == b2,
{
}

} // verus!
