//! Controller behaviour: construction, dispatch, commit-on-success, and
//! the LED discipline around them.

use apcdeck::apcmini::{LedBoard, LedCmd, LedState};
use apcdeck::config::{
    AudioBinding, DeckBindings, DeckConfig, SceneBinding, SourceBinding,
};
use apcdeck::control::{
    AudioSourceState, Controller, Entity, RemoteCall, VideoSourceState,
};

fn table() -> DeckConfig {
    DeckConfig {
        bindings: DeckBindings {
            audio: vec![
                AudioBinding { slider: 0, name: "Mic".to_string() },
                AudioBinding { slider: 3, name: "Desktop".to_string() },
            ],
            scenes: vec![
                SceneBinding { button: 5, name: "Intro".to_string() },
                SceneBinding { button: 6, name: "Main".to_string() },
            ],
            sources: vec![
                SourceBinding { button: 10, name: "Camera".to_string() },
            ],
        },
    }
}

fn entities() -> Vec<Entity> {
    vec![
        Entity { name: "Mic".to_string(), type_tag: "pulse_input_capture".to_string() },
        Entity { name: "Desktop".to_string(), type_tag: "pulse_output_capture".to_string() },
        Entity { name: "Camera".to_string(), type_tag: "v4l2_input".to_string() },
        Entity { name: "Browser".to_string(), type_tag: "browser_source".to_string() },
    ]
}

fn greens_on_grid(board: &LedBoard) -> Vec<u8> {
    (0u8..64).filter(|&l| board.get(l) == LedState::Green).collect()
}

#[test]
fn construction_initialises_states_and_leds() {
    let (c, cmds) = Controller::new(table(), entities(), None);
    assert_eq!(c.current_scene_button(), None);
    assert_eq!(c.audio_state(0), Some(AudioSourceState::Active));
    assert_eq!(c.audio_state(3), Some(AudioSourceState::Active));
    assert_eq!(c.audio_state(1), None);
    assert_eq!(c.video_state(10), Some(VideoSourceState::Visible));
    assert_eq!(c.video_state(5), None);

    let mut board = LedBoard::new();
    board.apply(&cmds);
    assert_eq!(board.get(5), LedState::Red);
    assert_eq!(board.get(6), LedState::Red);
    assert_eq!(board.get(10), LedState::Yellow);
    assert_eq!(board.get(64), LedState::Off);
    assert_eq!(board.get(67), LedState::Off);
    assert!(greens_on_grid(&board).is_empty());
}

#[test]
fn construction_twice_yields_identical_led_output() {
    let (_, cmds1) = Controller::new(table(), entities(), Some("Intro".to_string()));
    let (_, cmds2) = Controller::new(table(), entities(), Some("Intro".to_string()));
    assert_eq!(cmds1, cmds2);
    let (_, cmds3) = Controller::new(table(), entities(), None);
    let (_, cmds4) = Controller::new(table(), entities(), None);
    assert_eq!(cmds3, cmds4);
}

#[test]
fn reported_scene_lights_exactly_its_button() {
    let (c, cmds) = Controller::new(table(), entities(), Some("Intro".to_string()));
    assert_eq!(c.current_scene_button(), Some(5));
    let mut board = LedBoard::new();
    board.apply(&cmds);
    assert_eq!(board.get(5), LedState::Green);
    assert_eq!(greens_on_grid(&board), vec![5]);
}

#[test]
fn unmatched_or_missing_scene_report_lights_nothing() {
    let (c, cmds) = Controller::new(table(), entities(), Some("Credits".to_string()));
    assert_eq!(c.current_scene_button(), None);
    let mut board = LedBoard::new();
    board.apply(&cmds);
    assert!(greens_on_grid(&board).is_empty());

    let (c2, _) = Controller::new(table(), entities(), None);
    assert_eq!(c2.current_scene_button(), None);
}

#[test]
fn scene_switch_commits_only_on_success() {
    let (mut c, init) = Controller::new(table(), entities(), Some("Intro".to_string()));
    let mut board = LedBoard::new();
    board.apply(&init);

    let (cmds, call) = c.on_button_press(6);
    board.apply(&cmds);
    // The old button is relit at once; nothing is green until the remote
    // confirms.
    assert_eq!(cmds, vec![LedCmd { led: 5, state: LedState::Red }]);
    assert!(greens_on_grid(&board).is_empty());
    assert_eq!(c.current_scene_button(), Some(6));
    let call = call.expect("a scene switch demands a remote call");
    match &call {
        RemoteCall::SetActiveScene { scene, btn } => {
            assert_eq!(scene, "Main");
            assert_eq!(*btn, 6);
        }
        other => panic!("unexpected call {:?}", other),
    }

    let cmds = c.on_remote_success(&call);
    board.apply(&cmds);
    assert_eq!(cmds, vec![LedCmd { led: 6, state: LedState::Green }]);
    assert_eq!(greens_on_grid(&board), vec![6]);
}

#[test]
fn at_most_one_scene_button_is_ever_green() {
    let (mut c, init) = Controller::new(table(), entities(), Some("Intro".to_string()));
    let mut board = LedBoard::new();
    board.apply(&init);
    assert!(greens_on_grid(&board).len() <= 1);

    // Switch, confirm, switch again, leave the last unconfirmed: after
    // every step the grid shows at most one green light.
    let (cmds, call) = c.on_button_press(6);
    board.apply(&cmds);
    assert!(greens_on_grid(&board).len() <= 1);
    let cmds = c.on_remote_success(&call.unwrap());
    board.apply(&cmds);
    assert!(greens_on_grid(&board).len() <= 1);
    let (cmds, _unconfirmed) = c.on_button_press(5);
    board.apply(&cmds);
    assert!(greens_on_grid(&board).len() <= 1);
}

#[test]
fn video_press_without_success_mutates_nothing() {
    let (mut c, _) = Controller::new(table(), entities(), Some("Intro".to_string()));
    assert_eq!(c.video_state(10), Some(VideoSourceState::Visible));

    let (cmds, call) = c.on_button_press(10);
    // The remote call fails (simulated by never reporting success): the
    // press emitted no LED update and flipped no state.
    assert!(cmds.is_empty());
    let call = call.expect("a bound video press under a current scene demands a call");
    match &call {
        RemoteCall::SetItemVisibility { scene, source, visible, btn } => {
            assert_eq!(scene, "Intro");
            assert_eq!(source, "Camera");
            // Already visible, so the call asks it to become hidden.
            assert_eq!(*visible, false);
            assert_eq!(*btn, 10);
        }
        other => panic!("unexpected call {:?}", other),
    }
    assert_eq!(c.video_state(10), Some(VideoSourceState::Visible));
}

#[test]
fn video_toggle_commits_flip_and_led_on_success() {
    let (mut c, init) = Controller::new(table(), entities(), Some("Intro".to_string()));
    let mut board = LedBoard::new();
    board.apply(&init);

    let (_, call) = c.on_button_press(10);
    let cmds = c.on_remote_success(&call.unwrap());
    board.apply(&cmds);
    assert_eq!(c.video_state(10), Some(VideoSourceState::Hidden));
    assert_eq!(board.get(10), LedState::BlinkYellow);

    let (_, call) = c.on_button_press(10);
    match call.as_ref().unwrap() {
        RemoteCall::SetItemVisibility { visible, .. } => assert_eq!(*visible, true),
        other => panic!("unexpected call {:?}", other),
    }
    let cmds = c.on_remote_success(&call.unwrap());
    board.apply(&cmds);
    assert_eq!(c.video_state(10), Some(VideoSourceState::Visible));
    assert_eq!(board.get(10), LedState::Yellow);
}

#[test]
fn video_press_without_current_scene_is_a_no_op() {
    let (mut c, _) = Controller::new(table(), entities(), None);
    let (cmds, call) = c.on_button_press(10);
    assert!(cmds.is_empty());
    assert!(call.is_none());
    assert_eq!(c.video_state(10), Some(VideoSourceState::Visible));
}

#[test]
fn unknown_video_source_is_a_no_op() {
    // "Camera" is bound to button 10 but the remote never listed it.
    let few = vec![
        Entity { name: "Mic".to_string(), type_tag: "pulse_input_capture".to_string() },
    ];
    let (mut c, _) = Controller::new(table(), few, Some("Intro".to_string()));
    let (cmds, call) = c.on_button_press(10);
    assert!(cmds.is_empty());
    assert!(call.is_none());
}

#[test]
fn unbound_button_press_is_a_no_op() {
    let (mut c, _) = Controller::new(table(), entities(), Some("Intro".to_string()));
    let (cmds, call) = c.on_button_press(20);
    assert!(cmds.is_empty());
    assert!(call.is_none());
    assert_eq!(c.current_scene_button(), Some(5));
}

#[test]
fn every_bound_slider_button_press_demands_one_mute_toggle() {
    let (mut c, _) = Controller::new(table(), entities(), None);
    // Slider 3 sits behind raw slider-button id 67. Whatever the current
    // state, each press demands exactly one toggle call.
    for expected_after in [AudioSourceState::Muted, AudioSourceState::Active] {
        let call = c.on_slider_btn_press(67);
        let call = call.expect("a bound slider-button press demands a toggle");
        match &call {
            RemoteCall::ToggleMute { source, btn } => {
                assert_eq!(source, "Desktop");
                assert_eq!(*btn, 67);
            }
            other => panic!("unexpected call {:?}", other),
        }
        c.on_remote_success(&call);
        assert_eq!(c.audio_state(3), Some(expected_after));
    }
}

#[test]
fn unbound_slider_button_press_is_a_no_op() {
    let (mut c, _) = Controller::new(table(), entities(), None);
    assert!(c.on_slider_btn_press(65).is_none());
}

#[test]
fn mute_commit_sets_the_slider_button_led() {
    let (mut c, init) = Controller::new(table(), entities(), None);
    let mut board = LedBoard::new();
    board.apply(&init);

    let call = c.on_slider_btn_press(64).unwrap();
    let cmds = c.on_remote_success(&call);
    board.apply(&cmds);
    assert_eq!(c.audio_state(0), Some(AudioSourceState::Muted));
    assert_eq!(board.get(64), LedState::Red);

    let call = c.on_slider_btn_press(64).unwrap();
    let cmds = c.on_remote_success(&call);
    board.apply(&cmds);
    assert_eq!(c.audio_state(0), Some(AudioSourceState::Active));
    assert_eq!(board.get(64), LedState::Off);
}

#[test]
fn slider_moves_demand_volume_calls_with_the_raw_value() {
    let (mut c, _) = Controller::new(table(), entities(), None);
    match c.on_slider_change(0, 127).unwrap() {
        RemoteCall::SetVolume { source, volume } => {
            assert_eq!(source, "Mic");
            assert_eq!(volume, 127);
        }
        other => panic!("unexpected call {:?}", other),
    }
    match c.on_slider_change(0, 0).unwrap() {
        RemoteCall::SetVolume { source, volume } => {
            assert_eq!(source, "Mic");
            assert_eq!(volume, 0);
        }
        other => panic!("unexpected call {:?}", other),
    }
    // The transport maps the raw value linearly onto decibels:
    // 127 is unity, 0 the bottom of the range.
    let db = |v: u8| -> f64 { -(1.0 - f64::from(v) / 127.0) * 100.0 };
    assert_eq!(db(127), 0.0);
    assert_eq!(db(0), -100.0);
}

#[test]
fn unbound_slider_move_is_a_no_op() {
    let (mut c, _) = Controller::new(table(), entities(), None);
    assert!(c.on_slider_change(7, 100).is_none());
    // A volume change touches no state and no LED either way.
    assert_eq!(c.audio_state(0), Some(AudioSourceState::Active));
}

#[test]
fn volume_success_changes_no_state_and_no_led() {
    let (mut c, _) = Controller::new(table(), entities(), None);
    let call = c.on_slider_change(0, 90).unwrap();
    let cmds = c.on_remote_success(&call);
    assert!(cmds.is_empty());
    assert_eq!(c.audio_state(0), Some(AudioSourceState::Active));
}

#[test]
fn classification_follows_the_type_tags() {
    // An entity with an unknown tag joins neither list: its bound button
    // behaves as an unknown source.
    let odd = vec![
        Entity { name: "Camera".to_string(), type_tag: "browser_source".to_string() },
    ];
    let (mut c, _) = Controller::new(table(), odd, Some("Intro".to_string()));
    assert!(c.on_button_press(10).1.is_none());

    // With the proper tag the same press demands a call.
    let proper = vec![
        Entity { name: "Camera".to_string(), type_tag: "v4l2_input".to_string() },
    ];
    let (mut c, _) = Controller::new(table(), proper, Some("Intro".to_string()));
    assert!(c.on_button_press(10).1.is_some());
}
