//! Binding configuration: which physical control drives which named
//! entity. Three independent namespaces — scene buttons, video-source
//! buttons and audio sliders — each a mapping from identifier to name.

use vstd::prelude::*;

verus! {

/// Binds an audio slider index to a named audio source.
pub struct AudioBinding {
    pub slider: u8,
    pub name: String,
}

/// Binds a grid button to a named scene.
pub struct SceneBinding {
    pub button: u8,
    pub name: String,
}

/// Binds a grid button to a named video source.
pub struct SourceBinding {
    pub button: u8,
    pub name: String,
}

/// The three binding namespaces, loaded once at startup.
pub struct DeckBindings {
    pub audio: Vec<AudioBinding>,
    pub scenes: Vec<SceneBinding>,
    pub sources: Vec<SourceBinding>,
}

/// The whole binding table.
pub struct DeckConfig {
    pub bindings: DeckBindings,
}

/// Button bound to scene `name` among `bs`; the first match wins.
pub open spec fn spec_button_by_scene(bs: Seq<SceneBinding>, name: Seq<char>) -> Option<u8>
    decreases bs.len(),
{
    if bs.len() == 0 {
        None
    } else if bs[0].name@ == name {
        Some(bs[0].button)
    } else {
        spec_button_by_scene(bs.drop_first(), name)
    }
}

/// Scene name bound to `button` among `bs`; the first match wins.
pub open spec fn spec_scene_by_button(bs: Seq<SceneBinding>, button: u8) -> Option<Seq<char>>
    decreases bs.len(),
{
    if bs.len() == 0 {
        None
    } else if bs[0].button == button {
        Some(bs[0].name@)
    } else {
        spec_scene_by_button(bs.drop_first(), button)
    }
}

/// Audio-source name bound to `slider` among `bs`; the first match wins.
pub open spec fn spec_audiosource_by_slider(bs: Seq<AudioBinding>, slider: u8) -> Option<
    Seq<char>,
>
    decreases bs.len(),
{
    if bs.len() == 0 {
        None
    } else if bs[0].slider == slider {
        Some(bs[0].name@)
    } else {
        spec_audiosource_by_slider(bs.drop_first(), slider)
    }
}

/// Video-source name bound to `button` among `bs`; the first match wins.
pub open spec fn spec_source_by_button(bs: Seq<SourceBinding>, button: u8) -> Option<Seq<char>>
    decreases bs.len(),
{
    if bs.len() == 0 {
        None
    } else if bs[0].button == button {
        Some(bs[0].name@)
    } else {
        spec_source_by_button(bs.drop_first(), button)
    }
}

/// A scene lookup by button succeeds exactly when some binding carries the
/// button.
pub proof fn lemma_scene_by_button_exists(bs: Seq<SceneBinding>, button: u8)
    ensures
        spec_scene_by_button(bs, button) is Some <==> exists|i: int|
            0 <= i < bs.len() && bs[i].button == button,
    decreases bs.len(),
{
    if bs.len() > 0 {
        lemma_scene_by_button_exists(bs.drop_first(), button);
        if bs[0].button != button {
            assert forall|i: int| 0 <= i < bs.len() && bs[i].button == button implies exists|
                j: int,
            | 0 <= j < bs.drop_first().len() && bs.drop_first()[j].button == button by {
                assert(bs.drop_first()[i - 1] == bs[i]);
            }
        }
    }
}

/// A video-source lookup by button succeeds exactly when some binding
/// carries the button.
pub proof fn lemma_source_by_button_exists(bs: Seq<SourceBinding>, button: u8)
    ensures
        spec_source_by_button(bs, button) is Some <==> exists|i: int|
            0 <= i < bs.len() && bs[i].button == button,
    decreases bs.len(),
{
    if bs.len() > 0 {
        lemma_source_by_button_exists(bs.drop_first(), button);
        if bs[0].button != button {
            assert forall|i: int| 0 <= i < bs.len() && bs[i].button == button implies exists|
                j: int,
            | 0 <= j < bs.drop_first().len() && bs.drop_first()[j].button == button by {
                assert(bs.drop_first()[i - 1] == bs[i]);
            }
        }
    }
}

/// An audio lookup by slider succeeds exactly when some binding carries
/// the slider index.
pub proof fn lemma_audiosource_by_slider_exists(bs: Seq<AudioBinding>, slider: u8)
    ensures
        spec_audiosource_by_slider(bs, slider) is Some <==> exists|i: int|
            0 <= i < bs.len() && bs[i].slider == slider,
    decreases bs.len(),
{
    if bs.len() > 0 {
        lemma_audiosource_by_slider_exists(bs.drop_first(), slider);
        if bs[0].slider != slider {
            assert forall|i: int| 0 <= i < bs.len() && bs[i].slider == slider implies exists|
                j: int,
            | 0 <= j < bs.drop_first().len() && bs.drop_first()[j].slider == slider by {
                assert(bs.drop_first()[i - 1] == bs[i]);
            }
        }
    }
}

/// A successful name lookup names a bound scene button.
pub proof fn lemma_button_by_scene_is_bound(bs: Seq<SceneBinding>, name: Seq<char>)
    ensures
        spec_button_by_scene(bs, name) matches Some(b) ==> spec_scene_by_button(bs, b) is Some,
    decreases bs.len(),
{
    if bs.len() > 0 {
        if bs[0].name@ == name {
        } else {
            lemma_button_by_scene_is_bound(bs.drop_first(), name);
            if let Some(b) = spec_button_by_scene(bs, name) {
                lemma_scene_by_button_exists(bs.drop_first(), b);
                lemma_scene_by_button_exists(bs, b);
                assert forall|j: int|
                    0 <= j < bs.drop_first().len() && bs.drop_first()[j].button
                        == b implies exists|i: int| 0 <= i < bs.len() && bs[i].button == b by {
                    assert(bs[j + 1] == bs.drop_first()[j]);
                }
            }
        }
    }
}

/// Whether any scene binding at index `from` or later carries `button`.
fn scene_button_appears(bs: &Vec<SceneBinding>, from: usize, button: u8) -> (r: bool)
    requires
        from <= bs@.len(),
    ensures
        r == exists|k: int| from <= k < bs@.len() && bs@[k].button == button,
{
    let mut k = from;
    while k < bs.len()
        invariant
            from <= k <= bs@.len(),
            forall|j: int| from <= j < k ==> bs@[j].button != button,
        decreases bs@.len() - k,
    {
        if bs[k].button == button {
            return true;
        }
        k = k + 1;
    }
    false
}

/// Whether any video-source binding at index `from` or later carries
/// `button`.
fn source_button_appears(bs: &Vec<SourceBinding>, from: usize, button: u8) -> (r: bool)
    requires
        from <= bs@.len(),
    ensures
        r == exists|k: int| from <= k < bs@.len() && bs@[k].button == button,
{
    let mut k = from;
    while k < bs.len()
        invariant
            from <= k <= bs@.len(),
            forall|j: int| from <= j < k ==> bs@[j].button != button,
        decreases bs@.len() - k,
    {
        if bs[k].button == button {
            return true;
        }
        k = k + 1;
    }
    false
}

/// Whether any audio binding at index `from` or later carries `slider`.
fn audio_slider_appears(bs: &Vec<AudioBinding>, from: usize, slider: u8) -> (r: bool)
    requires
        from <= bs@.len(),
    ensures
        r == exists|k: int| from <= k < bs@.len() && bs@[k].slider == slider,
{
    let mut k = from;
    while k < bs.len()
        invariant
            from <= k <= bs@.len(),
            forall|j: int| from <= j < k ==> bs@[j].slider != slider,
        decreases bs@.len() - k,
    {
        if bs[k].slider == slider {
            return true;
        }
        k = k + 1;
    }
    false
}

impl DeckConfig {
    /// Every identifier lies in its namespace's range, no identifier is
    /// bound twice within a namespace, and no grid button is both a scene
    /// and a video-source binding.
    pub open spec fn wf(&self) -> bool {
        let scenes = self.bindings.scenes@;
        let sources = self.bindings.sources@;
        let audio = self.bindings.audio@;
        &&& forall|i: int| #![auto] 0 <= i < scenes.len() ==> scenes[i].button < 64
        &&& forall|i: int| #![auto] 0 <= i < sources.len() ==> sources[i].button < 64
        &&& forall|i: int| #![auto] 0 <= i < audio.len() ==> audio[i].slider < 10
        &&& forall|i: int, j: int|
            #![auto]
            0 <= i < j < scenes.len() ==> scenes[i].button != scenes[j].button
        &&& forall|i: int, j: int|
            #![auto]
            0 <= i < j < sources.len() ==> sources[i].button != sources[j].button
        &&& forall|i: int, j: int|
            #![auto]
            0 <= i < j < audio.len() ==> audio[i].slider != audio[j].slider
        &&& forall|i: int, j: int|
            #![auto]
            0 <= i < scenes.len() && 0 <= j < sources.len() ==> scenes[i].button
                != sources[j].button
    }

    /// Decides `wf`, so that a caller holding a freshly loaded table can
    /// reject a malformed one before using it.
    pub fn is_valid(&self) -> (r: bool)
        ensures
            r == self.wf(),
    {
        let mut i: usize = 0;
        while i < self.bindings.scenes.len()
            invariant
                i <= self.bindings.scenes@.len(),
                forall|k: int| #![auto] 0 <= k < i ==> self.bindings.scenes@[k].button < 64,
                forall|k: int, j: int|
                    #![auto]
                    0 <= k < i && k < j < self.bindings.scenes@.len()
                        ==> self.bindings.scenes@[k].button != self.bindings.scenes@[j].button,
                forall|k: int, j: int|
                    #![auto]
                    0 <= k < i && 0 <= j < self.bindings.sources@.len()
                        ==> self.bindings.scenes@[k].button != self.bindings.sources@[j].button,
            decreases self.bindings.scenes@.len() - i,
        {
            if self.bindings.scenes[i].button >= 64 {
                proof {
                    assert(self.wf() ==> self.bindings.scenes@[i as int].button < 64);
                }
                return false;
            }
            if scene_button_appears(&self.bindings.scenes, i + 1, self.bindings.scenes[i].button) {
                proof {
                    let k = choose|k: int|
                        i + 1 <= k < self.bindings.scenes@.len() && self.bindings.scenes@[k].button
                            == self.bindings.scenes@[i as int].button;
                    assert(self.wf() ==> self.bindings.scenes@[i as int].button
                        != self.bindings.scenes@[k].button);
                }
                return false;
            }
            if source_button_appears(&self.bindings.sources, 0, self.bindings.scenes[i].button) {
                proof {
                    let k = choose|k: int|
                        0 <= k < self.bindings.sources@.len() && self.bindings.sources@[k].button
                            == self.bindings.scenes@[i as int].button;
                    assert(self.wf() ==> self.bindings.scenes@[i as int].button
                        != self.bindings.sources@[k].button);
                }
                return false;
            }
            i = i + 1;
        }
        let mut i: usize = 0;
        while i < self.bindings.sources.len()
            invariant
                i <= self.bindings.sources@.len(),
                forall|k: int| #![auto] 0 <= k < i ==> self.bindings.sources@[k].button < 64,
                forall|k: int, j: int|
                    #![auto]
                    0 <= k < i && k < j < self.bindings.sources@.len()
                        ==> self.bindings.sources@[k].button != self.bindings.sources@[j].button,
            decreases self.bindings.sources@.len() - i,
        {
            if self.bindings.sources[i].button >= 64 {
                proof {
                    assert(self.wf() ==> self.bindings.sources@[i as int].button < 64);
                }
                return false;
            }
            if source_button_appears(
                &self.bindings.sources,
                i + 1,
                self.bindings.sources[i].button,
            ) {
                proof {
                    let k = choose|k: int|
                        i + 1 <= k < self.bindings.sources@.len()
                            && self.bindings.sources@[k].button == self.bindings.sources@[
                            i as int
                        ].button;
                    assert(self.wf() ==> self.bindings.sources@[i as int].button
                        != self.bindings.sources@[k].button);
                }
                return false;
            }
            i = i + 1;
        }
        let mut i: usize = 0;
        while i < self.bindings.audio.len()
            invariant
                i <= self.bindings.audio@.len(),
                forall|k: int| #![auto] 0 <= k < i ==> self.bindings.audio@[k].slider < 10,
                forall|k: int, j: int|
                    #![auto]
                    0 <= k < i && k < j < self.bindings.audio@.len()
                        ==> self.bindings.audio@[k].slider != self.bindings.audio@[j].slider,
            decreases self.bindings.audio@.len() - i,
        {
            if self.bindings.audio[i].slider >= 10 {
                proof {
                    assert(self.wf() ==> self.bindings.audio@[i as int].slider < 10);
                }
                return false;
            }
            if audio_slider_appears(&self.bindings.audio, i + 1, self.bindings.audio[i].slider) {
                proof {
                    let k = choose|k: int|
                        i + 1 <= k < self.bindings.audio@.len() && self.bindings.audio@[k].slider
                            == self.bindings.audio@[i as int].slider;
                    assert(self.wf() ==> self.bindings.audio@[i as int].slider
                        != self.bindings.audio@[k].slider);
                }
                return false;
            }
            i = i + 1;
        }
        true
    }

    /// Button bound to scene `scene`, if any; the first match wins.
    pub fn get_button_by_scene(&self, scene: String) -> (r: Option<u8>)
        ensures
            r == spec_button_by_scene(self.bindings.scenes@, scene@),
    {
        let ghost all: Seq<SceneBinding> = self.bindings.scenes@;
        let n = self.bindings.scenes.len();
        let mut i: usize = 0;
        proof {
            assert(all.skip(0) =~= all);
        }
        while i < n
            invariant
                i <= n,
                n == all.len(),
                self.bindings.scenes@ == all,
                spec_button_by_scene(all, scene@) == spec_button_by_scene(
                    all.skip(i as int),
                    scene@,
                ),
            decreases n - i,
        {
            proof {
                assert(all.skip(i as int)[0] == all[i as int]);
                assert(all.skip(i as int).drop_first() =~= all.skip(i as int + 1));
            }
            if self.bindings.scenes[i].name == scene {
                return Some(self.bindings.scenes[i].button);
            }
            i = i + 1;
        }
        None
    }

    /// Scene bound to `button`, if any; the first match wins.
    pub fn get_scene_by_button(&self, button: u8) -> (r: Option<String>)
        ensures
            (r is Some) == (spec_scene_by_button(self.bindings.scenes@, button) is Some),
            r matches Some(name) ==> Some(name@) == spec_scene_by_button(
                self.bindings.scenes@,
                button,
            ),
    {
        let ghost all: Seq<SceneBinding> = self.bindings.scenes@;
        let n = self.bindings.scenes.len();
        let mut i: usize = 0;
        proof {
            assert(all.skip(0) =~= all);
        }
        while i < n
            invariant
                i <= n,
                n == all.len(),
                self.bindings.scenes@ == all,
                spec_scene_by_button(all, button) == spec_scene_by_button(
                    all.skip(i as int),
                    button,
                ),
            decreases n - i,
        {
            proof {
                assert(all.skip(i as int)[0] == all[i as int]);
                assert(all.skip(i as int).drop_first() =~= all.skip(i as int + 1));
            }
            if self.bindings.scenes[i].button == button {
                return Some(self.bindings.scenes[i].name.clone());
            }
            i = i + 1;
        }
        None
    }

    /// Audio source bound to `slider`, if any; the first match wins.
    pub fn get_audiosource_by_slider(&self, slider: u8) -> (r: Option<String>)
        ensures
            (r is Some) == (spec_audiosource_by_slider(self.bindings.audio@, slider) is Some),
            r matches Some(name) ==> Some(name@) == spec_audiosource_by_slider(
                self.bindings.audio@,
                slider,
            ),
    {
        let ghost all: Seq<AudioBinding> = self.bindings.audio@;
        let n = self.bindings.audio.len();
        let mut i: usize = 0;
        proof {
            assert(all.skip(0) =~= all);
        }
        while i < n
            invariant
                i <= n,
                n == all.len(),
                self.bindings.audio@ == all,
                spec_audiosource_by_slider(all, slider) == spec_audiosource_by_slider(
                    all.skip(i as int),
                    slider,
                ),
            decreases n - i,
        {
            proof {
                assert(all.skip(i as int)[0] == all[i as int]);
                assert(all.skip(i as int).drop_first() =~= all.skip(i as int + 1));
            }
            if self.bindings.audio[i].slider == slider {
                return Some(self.bindings.audio[i].name.clone());
            }
            i = i + 1;
        }
        None
    }

    /// Video source bound to `button`, if any; the first match wins.
    pub fn get_source_by_button(&self, button: u8) -> (r: Option<String>)
        ensures
            (r is Some) == (spec_source_by_button(self.bindings.sources@, button) is Some),
            r matches Some(name) ==> Some(name@) == spec_source_by_button(
                self.bindings.sources@,
                button,
            ),
    {
        let ghost all: Seq<SourceBinding> = self.bindings.sources@;
        let n = self.bindings.sources.len();
        let mut i: usize = 0;
        proof {
            assert(all.skip(0) =~= all);
        }
        while i < n
            invariant
                i <= n,
                n == all.len(),
                self.bindings.sources@ == all,
                spec_source_by_button(all, button) == spec_source_by_button(
                    all.skip(i as int),
                    button,
                ),
            decreases n - i,
        {
            proof {
                assert(all.skip(i as int)[0] == all[i as int]);
                assert(all.skip(i as int).drop_first() =~= all.skip(i as int + 1));
            }
            if self.bindings.sources[i].button == button {
                return Some(self.bindings.sources[i].name.clone());
            }
            i = i + 1;
        }
        None
    }
}

} // verus!
