//! Decoder behaviour over the whole protocol surface.

use apcdeck::apcmini::{LedCmd, LedState, Message};

#[test]
fn grid_buttons_decode_for_every_id() {
    for b1 in 0u8..=63 {
        let r = Message::from_midi(&[0x90, b1, 0x7F]);
        assert!(matches!(r, Some(Message::Button { id }) if id == b1));
    }
}

#[test]
fn slider_buttons_decode_for_every_id() {
    for b1 in 64u8..=71 {
        let r = Message::from_midi(&[0x90, b1, 0x7F]);
        assert!(matches!(r, Some(Message::SliderButton { id }) if id == b1));
    }
}

#[test]
fn sliders_decode_with_bias_removed() {
    for b1 in 48u8..=57 {
        for v in [0u8, 64, 127] {
            let r = Message::from_midi(&[0xB0, b1, v]);
            assert!(matches!(r, Some(Message::Slider { id, value }) if id == b1 - 48 && value == v));
        }
    }
}

#[test]
fn unknown_headers_are_dropped() {
    for b0 in 0u8..=255 {
        if b0 == 0x90 || b0 == 0xB0 {
            continue;
        }
        assert!(Message::from_midi(&[b0, 5, 0]).is_none());
    }
}

#[test]
fn out_of_range_data_bytes_are_dropped() {
    for b1 in 72u8..=255 {
        assert!(Message::from_midi(&[0x90, b1, 0]).is_none());
    }
    for b1 in (0u8..48).chain(58..=255) {
        assert!(Message::from_midi(&[0xB0, b1, 0]).is_none());
    }
}

#[test]
fn short_frames_are_dropped() {
    assert!(Message::from_midi(&[]).is_none());
    assert!(Message::from_midi(&[0x90]).is_none());
    // A slider frame needs its value byte; a button frame does not.
    assert!(Message::from_midi(&[0xB0, 50]).is_none());
    assert!(matches!(
        Message::from_midi(&[0x90, 3]),
        Some(Message::Button { id: 3 })
    ));
}

#[test]
fn led_frames_carry_the_wire_codes() {
    assert_eq!(LedState::Off.code(), 0);
    assert_eq!(LedState::Green.code(), 1);
    assert_eq!(LedState::Red.code(), 3);
    assert_eq!(LedState::Yellow.code(), 5);
    assert_eq!(LedState::BlinkYellow.code(), 6);
    let cmd = LedCmd {
        led: 9,
        state: LedState::Green,
    };
    assert_eq!(cmd.frame(), [0x90, 9, 1]);
}
