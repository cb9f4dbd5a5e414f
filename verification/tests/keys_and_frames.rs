use yzendris::keys::{evdev_to_scancode, scancode_to_evdev, HeldKeys};
use yzendris::protocol::{check_frame_len, encode_frame, frame_len, split_frame, FrameError, FrameSplit, MAX_FRAME};

#[test]
fn plain_scancodes_map_one_to_one() {
    assert_eq!(scancode_to_evdev(1, false), Some(1));
    assert_eq!(scancode_to_evdev(88, false), Some(88));
    assert_eq!(scancode_to_evdev(89, false), None);
    assert_eq!(scancode_to_evdev(0, false), None);
}

#[test]
fn extended_scancodes_map_to_evdev() {
    assert_eq!(scancode_to_evdev(0x1D, true), Some(97));
    assert_eq!(scancode_to_evdev(0x5B, true), Some(125));
    assert_eq!(scancode_to_evdev(0x63, true), Some(213));
    assert_eq!(scancode_to_evdev(0x10, true), None);
}

#[test]
fn windows_client_types_back_the_same_key() {
    assert_eq!(evdev_to_scancode(97), Some((0x1D, true)));
    assert_eq!(evdev_to_scancode(30), Some((30, false)));
    assert_eq!(evdev_to_scancode(119), Some((0x46, true)));
    assert_eq!(evdev_to_scancode(116), Some((0x5E, true)));
    assert_eq!(evdev_to_scancode(142), Some((0x5F, true)));
    assert_eq!(evdev_to_scancode(213), Some((0x63, true)));
    assert_eq!(evdev_to_scancode(200), None);
    for sc in 0u32..0x80 {
        for ext in [false, true] {
            if let Some(c) = scancode_to_evdev(sc, ext) {
                assert_eq!(evdev_to_scancode(c), Some((sc as u16, ext)));
            }
        }
    }
}

#[test]
fn held_keys_are_listed_in_order() {
    let mut h = HeldKeys::new();
    h.set(272, true);
    h.set(30, true);
    h.set(511, true);
    h.set(512, true);
    h.set(30, true);
    assert!(h.is_set(30));
    assert!(!h.is_set(512));
    assert_eq!(h.collect(), vec![30, 272, 511]);
    h.set(272, false);
    assert_eq!(h.collect(), vec![30, 511]);
    h.clear();
    assert!(h.collect().is_empty());
}

#[test]
fn frame_roundtrip() {
    let payload = vec![7u8, 0, 255, 3];
    let frame = encode_frame(&payload);
    assert_eq!(frame, vec![4, 0, 0, 0, 7, 0, 255, 3]);
    assert_eq!(frame_len(&frame[..4]), 4);
    match split_frame(&frame) {
        FrameSplit::Frame { payload: p, consumed } => {
            assert_eq!(p, payload);
            assert_eq!(consumed, 8);
        }
        other => panic!("unexpected {other:?}"),
    }
    assert!(matches!(split_frame(&frame[..6]), FrameSplit::Incomplete));
}

#[test]
fn oversized_frames_are_refused() {
    assert_eq!(check_frame_len(MAX_FRAME), Ok(65536));
    assert_eq!(check_frame_len(MAX_FRAME + 1), Err(FrameError::TooLarge { len: 65537 }));
    let buf = [1u8, 0, 1, 0];
    assert!(matches!(split_frame(&buf), FrameSplit::TooLarge { len: 65537 }));
}
