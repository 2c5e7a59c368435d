use browser::context::JSGameContext;
use browser::game_pad::{press_direction, PadLayout, PAD_DOWN, PAD_IDLE, PAD_LEFT, PAD_RIGHT, PAD_UP};
use browser::keys::{KeyEvent, KeyMap, VK_DOWN, VK_LEFT, VK_RIGHT, VK_SPACE, VK_UP};
use browser::socket::{frame_action, FrameAction, FrameKind};

fn arrows() -> KeyMap {
    let mut m = KeyMap::new();
    m.insert("ArrowUp", VK_UP);
    m.insert("ArrowDown", VK_DOWN);
    m.insert("ArrowLeft", VK_LEFT);
    m.insert("ArrowRight", VK_RIGHT);
    m.insert(" ", VK_SPACE);
    m
}

#[test]
fn key_map_binds_and_rebinds() {
    let mut m = KeyMap::new();
    assert_eq!(m.get("w"), None);
    m.insert("w", VK_UP);
    m.insert("s", VK_DOWN);
    assert_eq!(m.get("w"), Some(VK_UP));
    assert_eq!(m.get("s"), Some(VK_DOWN));
    m.insert("w", 87);
    assert_eq!(m.get("w"), Some(87));
    assert_eq!(m.get("W"), None);
}

#[test]
fn held_key_raises_one_key_down() {
    let mut c = JSGameContext::new(arrows());
    assert!(c.on_key_down("ArrowUp"));
    assert!(c.on_key_down("ArrowUp"));
    assert!(c.on_key_down("ArrowUp"));
    assert_eq!(c.pick_key_events(), vec![(KeyEvent::KeyDown, VK_UP)]);
}

#[test]
fn release_raises_key_up_and_allows_a_new_press() {
    let mut c = JSGameContext::new(arrows());
    assert!(c.on_key_down("ArrowLeft"));
    assert!(c.on_key_up("ArrowLeft"));
    assert!(c.on_key_down("ArrowLeft"));
    assert_eq!(
        c.pick_key_events(),
        vec![(KeyEvent::KeyDown, VK_LEFT), (KeyEvent::KeyUp, VK_LEFT), (KeyEvent::KeyDown, VK_LEFT)]
    );
}

#[test]
fn key_up_without_press_still_raises_key_up() {
    let mut c = JSGameContext::new(arrows());
    assert!(c.on_key_up("ArrowRight"));
    assert_eq!(c.pick_key_events(), vec![(KeyEvent::KeyUp, VK_RIGHT)]);
}

#[test]
fn two_keys_held_together() {
    let mut c = JSGameContext::new(arrows());
    c.on_key_down("ArrowUp");
    c.on_key_down(" ");
    c.on_key_up("ArrowUp");
    c.on_key_down(" ");
    c.on_key_down("ArrowUp");
    assert_eq!(
        c.pick_key_events(),
        vec![
            (KeyEvent::KeyDown, VK_UP),
            (KeyEvent::KeyDown, VK_SPACE),
            (KeyEvent::KeyUp, VK_UP),
            (KeyEvent::KeyDown, VK_UP),
        ]
    );
}

#[test]
fn unmapped_key_is_ignored() {
    let mut c = JSGameContext::new(arrows());
    assert!(!c.on_key_down("q"));
    assert!(!c.on_key_up("q"));
    assert!(c.pick_key_events().is_empty());
}

#[test]
fn pick_empties_the_queue() {
    let mut c = JSGameContext::new(arrows());
    c.on_key_down("ArrowDown");
    assert_eq!(c.pick_key_events(), vec![(KeyEvent::KeyDown, VK_DOWN)]);
    assert!(c.pick_key_events().is_empty());
}

#[test]
fn pad_buttons_fire() {
    let mut c = JSGameContext::new(arrows());
    c.on_pad_button();
    c.on_pad_button();
    assert_eq!(c.pick_key_events(), vec![(KeyEvent::KeyDown, VK_SPACE), (KeyEvent::KeyDown, VK_SPACE)]);
}

#[test]
fn press_each_direction() {
    let up = press_direction(15, 5, 10, PAD_IDLE);
    assert_eq!(up.status, PAD_UP);
    assert_eq!(up.events, vec![(KeyEvent::KeyDown, VK_UP)]);
    let down = press_direction(15, 25, 10, PAD_IDLE);
    assert_eq!(down.status, PAD_DOWN);
    assert_eq!(down.events, vec![(KeyEvent::KeyDown, VK_DOWN)]);
    let left = press_direction(5, 15, 10, PAD_IDLE);
    assert_eq!(left.status, PAD_LEFT);
    assert_eq!(left.events, vec![(KeyEvent::KeyDown, VK_LEFT)]);
    let right = press_direction(25, 15, 10, PAD_IDLE);
    assert_eq!(right.status, PAD_RIGHT);
    assert_eq!(right.events, vec![(KeyEvent::KeyDown, VK_RIGHT)]);
}

#[test]
fn press_center_raises_nothing() {
    let p = press_direction(15, 15, 10, PAD_IDLE);
    assert_eq!(p.status, PAD_IDLE);
    assert!(p.events.is_empty());
}

#[test]
fn press_held_direction_is_silent() {
    let p = press_direction(15, 5, 10, PAD_UP);
    assert_eq!(p.status, PAD_UP);
    assert!(p.events.is_empty());
}

#[test]
fn press_corner_fires_two_buttons() {
    let p = press_direction(10, 10, 10, PAD_IDLE);
    assert_eq!(p.status, PAD_LEFT);
    assert_eq!(p.events, vec![(KeyEvent::KeyDown, VK_UP), (KeyEvent::KeyDown, VK_LEFT)]);
    let again = press_direction(10, 10, 10, p.status);
    assert_eq!(again.status, PAD_UP);
    assert_eq!(again.events, vec![(KeyEvent::KeyDown, VK_UP)]);
}

#[test]
fn press_down_edge_is_exclusive_on_the_right() {
    let p = press_direction(20, 25, 10, PAD_IDLE);
    assert!(p.events.is_empty());
    let q = press_direction(20, 5, 10, PAD_IDLE);
    assert_eq!(q.events, vec![(KeyEvent::KeyDown, VK_UP)]);
}

#[test]
fn layout_reads_attributes() {
    let l = PadLayout::from_attributes("12", "-7", "+5", "0", 90).unwrap();
    assert_eq!(l, PadLayout { pad_left: 12, pad_top: -7, direction_left: 5, direction_top: 0, direction_width: 90 });
    assert_eq!(l.button_width(), 30);
}

#[test]
fn layout_rejects_bad_attributes() {
    assert!(PadLayout::from_attributes("12px", "0", "0", "0", 90).is_none());
    assert!(PadLayout::from_attributes("0", " 3", "0", "0", 90).is_none());
    assert!(PadLayout::from_attributes("0", "0", "", "0", 90).is_none());
    assert!(PadLayout::from_attributes("0", "0", "0", "-", 90).is_none());
    assert!(PadLayout::from_attributes("2147483648", "0", "0", "0", 90).is_none());
    assert_eq!(PadLayout::from_attributes("-2147483648", "0", "0", "0", 90).unwrap().pad_left, i32::MIN);
}

#[test]
fn button_width_rounds_toward_zero() {
    let l = PadLayout { pad_left: 0, pad_top: 0, direction_left: 0, direction_top: 0, direction_width: 100 };
    assert_eq!(l.button_width(), 33);
    let n = PadLayout { direction_width: -7, ..l };
    assert_eq!(n.button_width(), -2);
}

#[test]
fn point_fits_detects_overflow() {
    let l = PadLayout { pad_left: 10, pad_top: 20, direction_left: 30, direction_top: 40, direction_width: 90 };
    assert!(l.point_fits(100, 100));
    assert!(!l.point_fits(i32::MIN, 100));
    assert!(!l.point_fits(100, i32::MIN + 30));
    let neg = PadLayout { pad_left: -10, ..l };
    assert!(!neg.point_fits(i32::MAX, 0));
}

#[test]
fn pad_touch_on_page() {
    let mut c = JSGameContext::new(arrows());
    let l = PadLayout { pad_left: 100, pad_top: 200, direction_left: 10, direction_top: 20, direction_width: 90 };
    // relative point (45, 10): the up button
    assert_eq!(c.on_pad_touch(&l, 155, 230), Some(PAD_UP));
    // same button again: nothing
    assert_eq!(c.on_pad_touch(&l, 150, 235), None);
    // relative point (80, 45): the right button
    assert_eq!(c.on_pad_touch(&l, 190, 265), Some(PAD_RIGHT));
    assert_eq!(c.pick_key_events(), vec![(KeyEvent::KeyDown, VK_UP), (KeyEvent::KeyDown, VK_RIGHT)]);
}

#[test]
fn pad_lift_keeps_direction() {
    let mut c = JSGameContext::new(arrows());
    let l = PadLayout { pad_left: 0, pad_top: 0, direction_left: 0, direction_top: 0, direction_width: 30 };
    assert_eq!(c.on_pad_touch(&l, 5, 15), Some(PAD_LEFT));
    // the pointer leaves the pad's buttons: nothing is released
    assert_eq!(c.on_pad_touch(&l, 15, 15), None);
    // back to the left button: still held, so silent
    assert_eq!(c.on_pad_touch(&l, 5, 15), None);
    assert_eq!(c.pick_key_events(), vec![(KeyEvent::KeyDown, VK_LEFT)]);
}

#[test]
fn blobs_are_queued_in_order() {
    let mut c = JSGameContext::new(arrows());
    c.on_blob_loaded(Some(vec![1, 2, 3]));
    c.on_blob_loaded(None);
    c.on_blob_loaded(Some(vec![]));
    c.on_blob_loaded(Some(vec![9]));
    assert_eq!(c.pick_binary_messages(), vec![vec![1, 2, 3], vec![], vec![9]]);
    assert!(c.pick_binary_messages().is_empty());
}

#[test]
fn text_queue_starts_empty() {
    let mut c = JSGameContext::new(arrows());
    assert!(c.pick_messages().is_empty());
}

#[test]
fn only_blobs_are_read() {
    assert_eq!(frame_action(FrameKind::Blob), FrameAction::ReadAsArrayBuffer);
    assert_eq!(frame_action(FrameKind::Text), FrameAction::LogOnly);
    assert_eq!(frame_action(FrameKind::ArrayBuffer), FrameAction::LogOnly);
    assert_eq!(frame_action(FrameKind::Unknown), FrameAction::LogOnly);
}

#[test]
fn interleaved_picks_hand_out_each_event_once() {
    let mut c = JSGameContext::new(arrows());
    let l = PadLayout { pad_left: 0, pad_top: 0, direction_left: 0, direction_top: 0, direction_width: 30 };
    let mut handed = Vec::new();
    c.on_key_down("ArrowUp");
    handed.extend(c.pick_key_events());
    c.on_key_up("ArrowUp");
    c.on_pad_touch(&l, 25, 15);
    handed.extend(c.pick_key_events());
    handed.extend(c.pick_key_events());
    c.on_pad_button();
    handed.extend(c.pick_key_events());
    assert_eq!(
        handed,
        vec![
            (KeyEvent::KeyDown, VK_UP),
            (KeyEvent::KeyUp, VK_UP),
            (KeyEvent::KeyDown, VK_RIGHT),
            (KeyEvent::KeyDown, VK_SPACE),
        ]
    );
}
